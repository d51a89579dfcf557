//! Typing of statements.
use vstd::prelude::*;
use crate::ast::{exp_loc, stat_loc, spec_stat_loc, Decl, Exp, Loc, Stat, Var};
use crate::checker::call::call_typing;
use crate::checker::exp::{
    exp_typing, lemma_call_exp_typing, lemma_exp_typing_frame, lemma_value_typing_frame, lemma_widened_value_typing, value_typing, var_typing,
};
use crate::checker::mutation::coleta_mutacoes;
use crate::checker::names::{
    is_composite, presence_test_name, root_exp_var_name, root_var_name, spec_is_composite, spec_type_name,
    type_name_of,
};
use crate::checker::resolve::{is_widening_of, spec_widens};
use crate::checker::state::{is_prefix, lemma_prefix_trans, Checker};
use crate::checker::symtab::{lemma_latest_is_entry, Symbol, SymbolKind};
use crate::checker::verdict::{
    errors_view, first_optional, for_in_header_errors, is_operator_exp, lemma_push_is_concat, op_verdict,
    lemma_typed_verdict_has_no_errors, all_accepted, return_arity_message, decl_accepted, is_empty_block, return_fits, first_return_mismatch, returned_type, operand_loc, mutation_errors, accept, accept_var, assign_target_accepted, assign_target_type, widened_type,
};
use crate::checker::typed::{
    BinOp, TypedDeclTarget, TypedExp, TypedExpKind, TypedForInKind, TypedLValue,
    TypedMultiValues, TypedStat, TypedThen,
};
use crate::named::has_name;
use crate::text::{cat, cat3, cat5, usize_to_string};
use crate::types::{compatible_spec, equals_spec, lemma_equals_reflexive, models, Type, TypeModel};

verus! {

broadcast use {vstd::std_specs::vec::axiom_vec_decreases_to_view, crate::checker::state::lemma_subrange_whole};

/// A condition of `if`, `while` or `until`: a boolean (or `value`) that is
/// certainly present.
pub open spec fn is_condition(te: TypedExp) -> bool {
    compatible_spec(TypeModel::Boolean, te.ty.model()) && !(te.ty.model() is Option)
}

/// `e` is a state inside the scope of `c`: the names of `c` and possibly
/// more declarations after them, the same records and modules.
pub open spec fn within(c: Checker, e: Checker) -> bool {
    &&& is_prefix(c.st.entries@, e.st.entries@)
    &&& e.records == c.records
    &&& e.modules == c.modules
}

/// The number of enclosing loops inside the body of a loop (it saturates).
pub open spec fn loop_body_depth(d: usize) -> int {
    if d < usize::MAX {
        d + 1
    } else {
        d as int
    }
}

/// The nested statement `s` checks to `ts` in some state inside the scope
/// of `c` with `depth` enclosing loops.
pub open spec fn sub_typed(c: Checker, depth: int, rets: Seq<TypeModel>, s: Stat, ts: TypedStat) -> bool
    decreases s, 2int,
{
    exists|e: Checker| #[trigger] within(c, e) && e.loop_depth == depth && stat_typing(e, rets, s, ts)
}

/// The statements of a nested block, each checked inside the scope of `c`.
pub open spec fn stats_typed(c: Checker, depth: int, rets: Seq<TypeModel>, stats: Seq<Stat>, ss: Seq<TypedStat>) -> bool
    decreases stats, 3int,
{
    ss.len() == stats.len() && forall|i: int|
        0 <= i < ss.len() ==> sub_typed(c, depth, rets, stats[i], #[trigger] ss[i])
}

/// The expression `exp` checks to `te` in some state inside the scope of
/// `c` (a condition that sees what its block declared).
pub open spec fn exp_typed_within(c: Checker, exp: Exp, te: TypedExp) -> bool {
    exists|e: Checker| #[trigger] within(c, e) && exp_typing(e, exp, te)
}

/// What the checker promises of the typed form `ts` of `stat`, checked in
/// the state `c` inside a function whose results have types `rets`; nested
/// statements are typed forms of the written ones, checked inside the scope
/// of `c` (see `sub_typed`).
pub open spec fn stat_typing(c: Checker, rets: Seq<TypeModel>, stat: Stat, ts: TypedStat) -> bool
    decreases stat, 1int,
{
    match stat {
        Stat::StatBlock { loc, stats } => match ts {
            TypedStat::Block { loc: l, stats: ss } => l == loc && ss@.len() == stats@.len() && stats_typed(
                c,
                c.loop_depth as int,
                rets,
                stats@,
                ss@,
            ),
            _ => false,
        },
        Stat::StatWhile { loc, condition: cond_exp, block } => match ts {
            TypedStat::While { loc: l, condition, block: tb } => l == loc && is_condition(condition)
                && exp_typing(c, cond_exp, condition) && sub_typed(c, loop_body_depth(c.loop_depth), rets, *block, *tb),
            _ => false,
        },
        Stat::StatRepeat { loc, block, condition: cond_exp } => match ts {
            TypedStat::Repeat { loc: l, condition, block: tb } => l == loc && is_condition(condition)
                && exp_typed_within(c, cond_exp, condition) && match *block {
                Stat::StatBlock { loc: bl, stats } => match *tb {
                    TypedStat::Block { loc: tl, stats: ss } => tl == bl && stats_typed(
                        c,
                        loop_body_depth(c.loop_depth),
                        rets,
                        stats@,
                        ss@,
                    ),
                    _ => false,
                },
                _ => false,
            },
            _ => false,
        },
        Stat::StatIf { loc, thens, elsestat } => match ts {
            TypedStat::If { loc: l, thens: tt, elsestat: te } => l == loc && tt@.len() == thens@.len()
                && (forall|i: int|
                0 <= i < tt@.len() ==> is_condition(#[trigger] tt@[i].condition) && (!is_and_condition(
                    thens@[i].condition,
                ) ==> exp_typing(c, thens@[i].condition, tt@[i].condition))) && (forall|i: int|
                0 <= i < tt@.len() ==> sub_typed(c, c.loop_depth as int, rets, thens@[i].block, (#[trigger] tt@[i]).block))
                && match elsestat {
                Some(e) => match te {
                    Some(t) => sub_typed(c, c.loop_depth as int, rets, *e, *t),
                    None => false,
                },
                None => te is None,
            },
            _ => false,
        },
        Stat::StatFor { loc, decl, start: start_exp, finish: finish_exp, inc: inc_exp, block } => match ts {
            TypedStat::For { loc: l, name, ty, start, finish, inc, block: tb } => {
                &&& l == loc
                &&& sub_typed(c, loop_body_depth(c.loop_depth), rets, *block, *tb)
                &&& name@ == decl.name@
                &&& exp_typing(c, *start_exp, start)
                &&& exp_typing(c, *finish_exp, finish)
                &&& match inc_exp {
                    Some(e) => exp_typing(c, *e, *inc),
                    None => inc.kind == (if ty.model() is Integer {
                        TypedExpKind::Integer(1)
                    } else {
                        TypedExpKind::Float(0x3FF0_0000_0000_0000)
                    }),
                }
                &&& (ty.model() is Integer || ty.model() is Float)
                &&& equals_spec(start.ty.model(), ty.model())
                &&& equals_spec(finish.ty.model(), ty.model())
                &&& equals_spec(inc.ty.model(), ty.model())
            },
            _ => false,
        },
        Stat::StatForIn { loc, decls, exp: container_exp, block } => match ts {
            TypedStat::ForIn { loc: l, kind, container, block: tb } => l == loc && exp_typing(c, container_exp, container)
                && sub_typed(c, loop_body_depth(c.loop_depth), rets, *block, *tb)
                && match kind {
                TypedForInKind::Array { name, elem_ty } => decls@.len() == 1 && name@ == decls@[0].name@
                    && match container.ty.model() {
                    TypeModel::Array { elem } => equals_spec(elem_ty.model(), *elem),
                    _ => false,
                },
                TypedForInKind::Dict { key_name, key_ty, value_name, value_ty } => decls@.len() == 2
                    && key_name@ == decls@[0].name@ && value_name@ == decls@[1].name@
                    && match container.ty.model() {
                    TypeModel::Dict { keys, values } => equals_spec(key_ty.model(), *keys)
                        && equals_spec(value_ty.model(), *values),
                    _ => false,
                },
            },
            _ => false,
        },
        Stat::StatAssign { loc, vars, exps } => match ts {
            TypedStat::Assign { loc: l, value, .. } => l == loc && vars@.len() == 1 && exps@.len() == 1
                && value_typing(c, exps@[0], value),
            TypedStat::AssignMulti { loc: l, targets, values } => l == loc && targets@.len()
                == vars@.len() && !(vars@.len() == 1 && exps@.len() == 1) && multi_values_typing(
                c,
                exps@,
                values,
            ),
            _ => false,
        },
        Stat::StatDecl { loc, decls, exps } => match ts {
            TypedStat::Decl { loc: l, name, ty, value, .. } => {
                &&& l == loc
                &&& decls@.len() == 1 && exps@.len() == 1
                &&& name@ == decls@[0].name@
                &&& value_typing(c, exps@[0], value)
                &&& (decls@[0].ty is Some ==> compatible_spec(ty.model(), value.ty.model()))
                &&& (decls@[0].ty is None && !decls@[0].option ==> ty.model() == value.ty.model()
                    && !(ty.model() is Option))
            },
            TypedStat::DeclMulti { loc: l, targets, values } => l == loc && targets@.len()
                == decls@.len() && !(decls@.len() == 1 && exps@.len() == 1) && multi_values_typing(
                c,
                exps@,
                values,
            ),
            _ => false,
        },
        Stat::StatCall { loc, callexp } => match ts {
            TypedStat::Call { loc: l, call } => l == loc && exp_typing(c, callexp, call),
            _ => false,
        },
        Stat::StatReturn { loc, exps } => match ts {
            TypedStat::Return { loc: l, exps: es } => l == loc && es@.len() == rets.len()
                && es@.len() == exps@.len() && forall|i: int|
                0 <= i < es@.len() ==> compatible_spec(rets[i], #[trigger] es@[i].ty.model())
                    && value_typing(c, exps@[i], es@[i]),
            _ => false,
        },
        Stat::StatBreak { loc } => ts == TypedStat::Break { loc } && c.loop_depth > 0,
        Stat::StatContinue { loc } => ts == TypedStat::Continue { loc } && c.loop_depth > 0,
    }
}

/// The right side of a multiple declaration or assignment: one call
/// destructured as it is, or the typed form of each written value.
pub open spec fn multi_values_typing(c: Checker, exps: Seq<Exp>, values: TypedMultiValues) -> bool {
    match values {
        TypedMultiValues::Call(call) => exps.len() == 1 && exp_typing(c, exps[0], call),
        TypedMultiValues::List(vs) => vs@.len() == exps.len() && forall|i: int|
            0 <= i < vs@.len() ==> value_typing(c, exps[i], #[trigger] vs@[i]),
    }
}

/// `multi_values_typing` reads only what `exp_typing` reads.
pub proof fn lemma_multi_values_typing_frame(c1: Checker, c2: Checker, exps: Seq<Exp>, values: TypedMultiValues)
    requires
        c1.st.entries@ == c2.st.entries@,
        c1.records == c2.records,
        c1.modules == c2.modules,
    ensures
        multi_values_typing(c1, exps, values) == multi_values_typing(c2, exps, values),
{
    match values {
        TypedMultiValues::Call(call) => if exps.len() > 0 {
            lemma_exp_typing_frame(c1, c2, exps[0], call);
        },
        TypedMultiValues::List(vs) => {
            assert forall|i: int| 0 <= i < vs@.len() && i < exps.len() implies value_typing(c1, exps[i], vs@[i])
                == value_typing(c2, exps[i], vs@[i]) by {
                lemma_value_typing_frame(c1, c2, exps[i], vs@[i]);
            }
        },
    }
}

/// `exp` is a conjunction `a and b`, whose right side is checked with what
/// the left side narrowed.
pub open spec fn is_and_condition(exp: Exp) -> bool {
    match exp {
        Exp::ExpBinop { op, .. } => op@ == "and"@,
        _ => false,
    }
}

/// `sub_typed` reads only the scopes, records and modules of `c`.
pub proof fn lemma_sub_typed_frame(c1: Checker, c2: Checker, depth: int, rets: Seq<TypeModel>, s: Stat, ts: TypedStat)
    requires
        c1.st.entries@ == c2.st.entries@,
        c1.records == c2.records,
        c1.modules == c2.modules,
    ensures
        sub_typed(c1, depth, rets, s, ts) == sub_typed(c2, depth, rets, s, ts),
{
    if sub_typed(c1, depth, rets, s, ts) {
        let e = choose|e: Checker| #[trigger] within(c1, e) && e.loop_depth == depth && stat_typing(e, rets, s, ts);
        assert(within(c2, e));
    }
    if sub_typed(c2, depth, rets, s, ts) {
        let e = choose|e: Checker| #[trigger] within(c2, e) && e.loop_depth == depth && stat_typing(e, rets, s, ts);
        assert(within(c1, e));
    }
}

/// `stats_typed` reads only the scopes, records and modules of `c`.
pub proof fn lemma_stats_typed_frame(
    c1: Checker,
    c2: Checker,
    depth: int,
    rets: Seq<TypeModel>,
    stats: Seq<Stat>,
    ss: Seq<TypedStat>,
)
    requires
        c1.st.entries@ == c2.st.entries@,
        c1.records == c2.records,
        c1.modules == c2.modules,
    ensures
        stats_typed(c1, depth, rets, stats, ss) == stats_typed(c2, depth, rets, stats, ss),
{
    assert forall|i: int| 0 <= i < ss.len() implies sub_typed(c1, depth, rets, stats[i], #[trigger] ss[i])
        == sub_typed(c2, depth, rets, stats[i], ss[i]) by {
        lemma_sub_typed_frame(c1, c2, depth, rets, stats[i], ss[i]);
    }
}

/// `exp_typed_within` reads only the scopes, records and modules of `c`.
pub proof fn lemma_exp_typed_within_frame(c1: Checker, c2: Checker, exp: Exp, te: TypedExp)
    requires
        c1.st.entries@ == c2.st.entries@,
        c1.records == c2.records,
        c1.modules == c2.modules,
    ensures
        exp_typed_within(c1, exp, te) == exp_typed_within(c2, exp, te),
{
    if exp_typed_within(c1, exp, te) {
        let e = choose|e: Checker| #[trigger] within(c1, e) && exp_typing(e, exp, te);
        assert(within(c2, e));
    }
    if exp_typed_within(c2, exp, te) {
        let e = choose|e: Checker| #[trigger] within(c2, e) && exp_typing(e, exp, te);
        assert(within(c1, e));
    }
}

/// `stat_typing` reads only the scopes, the records, the modules and the
/// loop nesting of the state.
pub proof fn lemma_stat_typing_frame(c1: Checker, c2: Checker, rets: Seq<TypeModel>, stat: Stat, ts: TypedStat)
    requires
        c1.st.entries@ == c2.st.entries@,
        c1.records == c2.records,
        c1.modules == c2.modules,
        c1.loop_depth == c2.loop_depth,
    ensures
        stat_typing(c1, rets, stat, ts) == stat_typing(c2, rets, stat, ts),
{
    match stat {
        Stat::StatBlock { stats, .. } => match ts {
            TypedStat::Block { stats: ss, .. } => lemma_stats_typed_frame(c1, c2, c1.loop_depth as int, rets, stats@, ss@),
            _ => {},
        },
        Stat::StatWhile { condition, block, .. } => match ts {
            TypedStat::While { condition: tc, block: tb, .. } => {
                lemma_exp_typing_frame(c1, c2, condition, tc);
                lemma_sub_typed_frame(c1, c2, loop_body_depth(c1.loop_depth), rets, *block, *tb);
            },
            _ => {},
        },
        Stat::StatRepeat { block, condition, .. } => match ts {
            TypedStat::Repeat { condition: tc, block: tb, .. } => {
                lemma_exp_typed_within_frame(c1, c2, condition, tc);
                match *block {
                    Stat::StatBlock { stats, .. } => match *tb {
                        TypedStat::Block { stats: ss, .. } => lemma_stats_typed_frame(
                            c1,
                            c2,
                            loop_body_depth(c1.loop_depth),
                            rets,
                            stats@,
                            ss@,
                        ),
                        _ => {},
                    },
                    _ => {},
                }
            },
            _ => {},
        },
        Stat::StatIf { thens, elsestat, .. } => match ts {
            TypedStat::If { thens: tt, elsestat: te, .. } => {
                assert forall|i: int| 0 <= i < tt@.len() && i < thens@.len() implies exp_typing(
                    c1,
                    thens@[i].condition,
                    (#[trigger] tt@[i]).condition,
                ) == exp_typing(c2, thens@[i].condition, tt@[i].condition) && sub_typed(
                    c1,
                    c1.loop_depth as int,
                    rets,
                    thens@[i].block,
                    tt@[i].block,
                ) == sub_typed(c2, c2.loop_depth as int, rets, thens@[i].block, tt@[i].block) by {
                    lemma_exp_typing_frame(c1, c2, thens@[i].condition, tt@[i].condition);
                    lemma_sub_typed_frame(c1, c2, c1.loop_depth as int, rets, thens@[i].block, tt@[i].block);
                }
                match elsestat {
                    Some(e) => match te {
                        Some(t) => lemma_sub_typed_frame(c1, c2, c1.loop_depth as int, rets, *e, *t),
                        None => {},
                    },
                    None => {},
                }
            },
            _ => {},
        },
        Stat::StatFor { start, finish, inc, block, .. } => match ts {
            TypedStat::For { start: ts_, finish: tf, inc: ti, block: tb, .. } => {
                lemma_sub_typed_frame(c1, c2, loop_body_depth(c1.loop_depth), rets, *block, *tb);
                lemma_exp_typing_frame(c1, c2, *start, ts_);
                lemma_exp_typing_frame(c1, c2, *finish, tf);
                if inc is Some {
                    lemma_exp_typing_frame(c1, c2, *inc->0, *ti);
                }
            },
            _ => {},
        },
        Stat::StatForIn { exp, block, .. } => match ts {
            TypedStat::ForIn { container, block: tb, .. } => {
                lemma_exp_typing_frame(c1, c2, exp, container);
                lemma_sub_typed_frame(c1, c2, loop_body_depth(c1.loop_depth), rets, *block, *tb);
            },
            _ => {},
        },
        Stat::StatAssign { exps, .. } => match ts {
            TypedStat::Assign { value, .. } => if exps@.len() > 0 {
                lemma_value_typing_frame(c1, c2, exps@[0], value);
            },
            TypedStat::AssignMulti { values, .. } => lemma_multi_values_typing_frame(c1, c2, exps@, values),
            _ => {},
        },
        Stat::StatDecl { exps, .. } => match ts {
            TypedStat::Decl { value, .. } => if exps@.len() > 0 {
                lemma_value_typing_frame(c1, c2, exps@[0], value);
            },
            TypedStat::DeclMulti { values, .. } => lemma_multi_values_typing_frame(c1, c2, exps@, values),
            _ => {},
        },
        Stat::StatCall { callexp, .. } => match ts {
            TypedStat::Call { call, .. } => lemma_exp_typing_frame(c1, c2, callexp, call),
            _ => {},
        },
        Stat::StatReturn { exps, .. } => match ts {
            TypedStat::Return { exps: es, .. } => {
                assert forall|i: int| 0 <= i < es@.len() && i < exps@.len() implies value_typing(
                    c1,
                    exps@[i],
                    es@[i],
                ) == value_typing(c2, exps@[i], es@[i]) by {
                    lemma_value_typing_frame(c1, c2, exps@[i], es@[i]);
                }
            },
            _ => {},
        },
        _ => {},
    }
}

/// A resolved assignment target: the place, the type it accepts, the
/// declaration to mark as reassigned (when the target, or the root of its
/// chain, is a local) and its name when it is a bare name.
pub struct AssignTarget {
    pub lvalue: TypedLValue,
    pub ty: Type,
    pub decl_id: Option<usize>,
    pub name: Option<String>,
}

/// A copy of a symbol's kind.
fn copy_kind(k: &SymbolKind) -> (r: SymbolKind)
    ensures
        r == *k,
{
    match k {
        SymbolKind::Global => SymbolKind::Global,
        SymbolKind::Param => SymbolKind::Param,
        SymbolKind::ForVar => SymbolKind::ForVar,
        SymbolKind::Local { decl_id } => SymbolKind::Local { decl_id: *decl_id },
        SymbolKind::Module { name } => {
            SymbolKind::Module { name: name.clone() }
        },
    }
}

impl Checker {
    /// A condition of `while`/`until` (and of an `if` that narrows
    /// nothing): a present boolean (or `value`).
    pub fn check_condition(&mut self, exp: &Exp, contexto: &str) -> (r: Option<TypedExp>)
        requires
            old(self).wf(),
        ensures
            old(self).exp_step(*final(self)),
            r is None ==> final(self).errors@.len() > old(self).errors@.len(),
            r matches Some(te) ==> is_condition(te),
            r matches Some(te) ==> exp_typing(*old(self), *exp, te),
    {
        let boolean = Type::Boolean;
        let typed = self.check_exp(exp, Some(&boolean))?;
        if self.reject_option(&typed) {
            return None;
        }
        if !boolean.compatible(&typed.ty) {
            let found = type_name_of(&typed.ty);
            let msg = cat5("a condição do `", contexto, "` precisa ser boolean, encontrado ", found.as_str(), ".");
            self.error(typed.loc, msg);
            return None;
        }
        Some(typed)
    }

    /// The condition of an `if` branch, read left to right through `and`,
    /// narrowing `x ~= nil` (for a name `x` of type `T?`) so that the rest
    /// of the condition and the branch see `x` as `T`.  The narrowed names
    /// are declared in the block the caller opened for the branch.
    pub fn check_if_condition(&mut self, exp: &Exp) -> (r: (Option<TypedExp>, Vec<String>))
        requires
            old(self).wf(),
        ensures
            final(self).wf(),
            old(self).stat_step(*final(self)),
            final(self).next_decl_id == old(self).next_decl_id,
            r.0 is None ==> final(self).errors@.len() > old(self).errors@.len(),
            r.0 matches Some(te) ==> is_condition(te),
            r.0 matches Some(te) ==> (!is_and_condition(*exp) ==> exp_typing(*old(self), *exp, te)),
        decreases exp,
    {
        match exp {
            Exp::ExpBinop { loc, lhs, op, rhs } => {
                if crate::text::str_eq(op.as_str(), "and") {
                    let (typed_lhs, mut narrowed) = self.check_if_condition(&**lhs);
                    let ghost mid = self.st.entries@;
                    let (typed_rhs, narrowed_rhs) = self.check_if_condition(&**rhs);
                    proof { lemma_prefix_trans(old(self).st.entries@, mid, self.st.entries@); }
                    let mut k: usize = 0;
                    while k < narrowed_rhs.len()
                        invariant
                            k <= narrowed_rhs@.len(),
                        decreases narrowed_rhs@.len() - k,
                    {
                        narrowed.push(narrowed_rhs[k].clone());
                        k += 1;
                    }
                    let typed_lhs = match typed_lhs {
                        Some(t) => t,
                        None => return (None, narrowed),
                    };
                    let typed_rhs = match typed_rhs {
                        Some(t) => t,
                        None => return (None, narrowed),
                    };
                    let mut ok = true;
                    if !matches!(typed_lhs.ty, Type::Boolean) {
                        let found = type_name_of(&typed_lhs.ty);
                        self.error(typed_lhs.loc, cat3("operando de `and` precisa ser boolean, encontrado ", found.as_str(), "."));
                        ok = false;
                    }
                    if !matches!(typed_rhs.ty, Type::Boolean) {
                        let found = type_name_of(&typed_rhs.ty);
                        self.error(typed_rhs.loc, cat3("operando de `and` precisa ser boolean, encontrado ", found.as_str(), "."));
                        ok = false;
                    }
                    if !ok {
                        return (None, narrowed);
                    }
                    let te = TypedExp {
                        loc: *loc,
                        ty: Type::Boolean,
                        kind: TypedExpKind::Binop { op: BinOp::And, lhs: Box::new(typed_lhs), rhs: Box::new(typed_rhs) },
                    };
                    return (Some(te), narrowed);
                }
            },
            _ => {},
        }
        let tested = presence_test_name(exp);
        let condition = self.check_condition(exp, "if");
        let mut narrowed: Vec<String> = Vec::new();
        if condition.is_some() {
            match tested {
                Some(nome) => {
                    let found = match self.st.find_symbol(nome.as_str()) {
                        Some(s) => match &s.ty {
                            Type::Option { base } => Some(((**base).copy(), copy_kind(&s.kind), s.def_loc)),
                            _ => None,
                        },
                        None => None,
                    };
                    match found {
                        Some((base, kind, def_loc)) => {
                            proof {
                                if kind is Module {
                                    lemma_latest_is_entry(self.st.entries@, nome@);
                                    let i = choose|i: int|
                                        0 <= i < self.st.entries@.len() && self.st.entries@[i].0@ == nome@
                                            && Some(self.st.entries@[i].1) == self.st.resolve(nome@);
                                    assert(self.st.entries@[i].1.kind is Module);
                                }
                            }
                            self.declare(nome.as_str(), base, kind, def_loc);
                            narrowed.push(nome);
                        },
                        None => {},
                    }
                },
                None => {},
            }
        }
        (condition, narrowed)
    }
}

impl Checker {
    /// Resolves the left side of an assignment: a local or `for` variable,
    /// or an index or field chain rooted at a local, a `for` variable or a
    /// composite parameter.  Functions, modules and scalar parameters are
    /// rejected, each with its own message.
    pub fn check_assign_target(&mut self, loc: Loc, var: &Var) -> (r: Option<AssignTarget>)
        requires
            old(self).wf(),
        ensures
            old(self).exp_step(*final(self)),
            r is None ==> final(self).errors@.len() > old(self).errors@.len(),
            r matches Some(t) ==> match *var {
                Var::VarName { name, .. } => match old(self).st.resolve(name@) {
                    Some(s) => (s.kind is ForVar || s.kind is Local) && t.ty.model() == s.ty.model()
                        && t.lvalue is Name,
                    None => false,
                },
                _ => t.lvalue is Index || t.lvalue is Field,
            },
            assign_target_accepted(old(self).st, *var) ==> (r matches Some(t) && Some(t.ty.model())
                == assign_target_type(old(self).st, *var) && errors_view(final(self).errors@) == errors_view(
                old(self).errors@,
            )),
    {
        match var {
            Var::VarName { loc: var_loc, name } => {
                let found = match self.st.find_symbol(name.as_str()) {
                    Some(s) => Some((s.ty.copy(), copy_kind(&s.kind))),
                    None => None,
                };
                let (ty, kind) = match found {
                    Some(x) => x,
                    None => {
                        self.error(*var_loc, cat3("'", name.as_str(), "' não foi declarado."));
                        return None;
                    },
                };
                match kind {
                    SymbolKind::Global => {
                        self.error(*var_loc, String::from_str("não é possível atribuir a uma função."));
                        return None;
                    },
                    SymbolKind::Module { .. } => {
                        self.error(*var_loc, cat3("não é possível atribuir ao módulo '", name.as_str(), "'."));
                        return None;
                    },
                    SymbolKind::Param => {
                        if is_composite(&ty) {
                            self.error(
                                *var_loc,
                                cat3(
                                    "não é possível atribuir ao parâmetro composto '",
                                    name.as_str(),
                                    "' inteiro; modifique seus elementos/campos.",
                                ),
                            );
                        } else {
                            self.error(
                                *var_loc,
                                cat3("não é possível atribuir ao parâmetro '", name.as_str(), "' nesta fase."),
                            );
                        }
                        return None;
                    },
                    SymbolKind::ForVar => Some(
                        AssignTarget { lvalue: TypedLValue::Name(name.clone()), ty, decl_id: None, name: Some(name.clone()) },
                    ),
                    SymbolKind::Local { decl_id } => Some(
                        AssignTarget {
                            lvalue: TypedLValue::Name(name.clone()),
                            ty,
                            decl_id: Some(decl_id),
                            name: Some(name.clone()),
                        },
                    ),
                }
            },
            _ => {
                let root_name = match root_var_name(var) {
                    Some(n) => n,
                    None => {
                        self.error(loc, String::from_str("alvo de atribuição inválido."));
                        return None;
                    },
                };
                let found = match self.st.find_symbol(root_name.as_str()) {
                    Some(s) => Some((is_composite(&s.ty), copy_kind(&s.kind))),
                    None => None,
                };
                let (composite, kind) = match found {
                    Some(x) => x,
                    None => {
                        self.error(loc, cat3("'", root_name.as_str(), "' não foi declarado."));
                        return None;
                    },
                };
                let decl_id = match kind {
                    SymbolKind::Global => {
                        self.error(loc, String::from_str("não é possível atribuir a uma função."));
                        return None;
                    },
                    SymbolKind::Module { .. } => {
                        self.error(loc, cat3("não é possível atribuir ao módulo '", root_name.as_str(), "'."));
                        return None;
                    },
                    SymbolKind::Param => {
                        if !composite {
                            self.error(
                                loc,
                                cat3(
                                    "não é possível atribuir através do parâmetro escalar '",
                                    root_name.as_str(),
                                    "' nesta fase.",
                                ),
                            );
                            return None;
                        }
                        None
                    },
                    SymbolKind::ForVar => None,
                    SymbolKind::Local { decl_id } => Some(decl_id),
                };
                let target = self.check_var(var)?;
                let lvalue = match target.kind {
                    TypedExpKind::Index { base, index } => TypedLValue::Index { base, index },
                    TypedExpKind::Field { base, name } => TypedLValue::Field { base, name },
                    _ => {
                        proof { assert(false); }
                        return None;
                    },
                };
                Some(AssignTarget { lvalue, ty: target.ty, decl_id, name: None })
            },
        }
    }

    /// Checks the value of an assignment against its resolved target, after
    /// the injection into an optional target.
    pub fn coerce_assign_value(&mut self, alvo: &AssignTarget, value: TypedExp) -> (r: Option<TypedExp>)
        ensures
            old(self).same_scope(*final(self)),
            final(self).uses == old(self).uses,
            final(self).errors@.len() >= old(self).errors@.len(),
            r is None ==> final(self).errors@.len() > old(self).errors@.len(),
            r matches Some(v) ==> compatible_spec(alvo.ty.model(), v.ty.model()),
            r matches Some(v) ==> is_widening_of(value, v),
    {
        let value = Self::widen_to_option(&alvo.ty, value);
        if alvo.ty.compatible(&value.ty) {
            return Some(value);
        }
        if self.reject_option_where_base_expected(&alvo.ty, &value) {
            return None;
        }
        let expected = type_name_of(&alvo.ty);
        let found = type_name_of(&value.ty);
        let mut msg = match &alvo.name {
            Some(name) => cat3("atribuição incompatível para '", name.as_str(), "': esperado "),
            None => String::from_str("atribuição incompatível: esperado "),
        };
        msg.append(expected.as_str());
        msg.append(", encontrado ");
        msg.append(found.as_str());
        msg.append(".");
        self.error(value.loc, msg);
        None
    }

    /// Records that the target's declaration is reassigned.
    pub fn mark_assigned(&mut self, alvo: &AssignTarget)
        ensures
            match alvo.decl_id {
                Some(d) => final(self).assigned@ == old(self).assigned@.push(d),
                None => final(self).assigned == old(self).assigned,
            },
            final(self).st == old(self).st,
            final(self).errors == old(self).errors,
            final(self).records == old(self).records,
            final(self).modules == old(self).modules,
            final(self).loop_depth == old(self).loop_depth,
            final(self).foreigns == old(self).foreigns,
            final(self).next_decl_id == old(self).next_decl_id,
            final(self).record_def_locs == old(self).record_def_locs,
            final(self).field_def_locs == old(self).field_def_locs,
    {
        match alvo.decl_id {
            Some(d) => self.assigned.push(d),
            None => {},
        }
    }

    /// `target = value`.
    pub fn check_assign(&mut self, loc: Loc, var: &Var, exp: &Exp) -> (r: Option<TypedStat>)
        requires
            old(self).wf(),
        ensures
            old(self).exp_step(*final(self)),
            r is None ==> final(self).errors@.len() > old(self).errors@.len(),
            r matches Some(ts) ==> ts matches TypedStat::Assign { loc: l, value, .. } && l == loc
                && value_typing(*old(self), *exp, value),
    {
        let alvo = self.check_assign_target(loc, var)?;
        let ghost mid = *self;
        let typed = self.check_exp(exp, Some(&alvo.ty))?;
        proof { lemma_exp_typing_frame(mid, *old(self), *exp, typed); }
        let ghost typed_g = typed;
        let value = self.coerce_assign_value(&alvo, typed)?;
        proof { lemma_widened_value_typing(*old(self), *exp, typed_g, value); }
        self.mark_assigned(&alvo);
        Some(TypedStat::Assign { loc, target: alvo.lvalue, value })
    }

    /// The right side shared by `local a, b = ...` and `a, b = ...`: either
    /// one call whose signature has exactly as many results as there are
    /// targets, or one expression per target.  `esperados` gives, per
    /// target, the type it requires, if any; the result gives the type of
    /// each target.
    #[verifier::loop_isolation(false)]
    pub fn check_multi_values(
        &mut self,
        loc: Loc,
        esperados: &Vec<Option<Type>>,
        exps: &Vec<Exp>,
        contexto: &str,
    ) -> (r: Option<(TypedMultiValues, Vec<Type>)>)
        requires
            old(self).wf(),
        ensures
            old(self).exp_step(*final(self)),
            r is None ==> final(self).errors@.len() > old(self).errors@.len(),
            r matches Some((_v, tipos)) ==> tipos@.len() == esperados@.len() && forall|i: int|
                0 <= i < tipos@.len() ==> (#[trigger] esperados@[i] matches Some(e) ==> tipos@[i].model()
                    == e.model()),
            r matches Some((v, _tipos)) ==> multi_values_typing(*old(self), exps@, v),
    {
        let alvos = esperados.len();
        if exps.len() == 1 && alvos > 1 && matches!(exps[0], Exp::ExpCall { .. }) {
            let (call, rettypes) = self.check_call(&exps[0])?;
            if rettypes.len() != alvos {
                let mut msg = String::from_str(contexto);
                msg.append(" múltipla com ");
                msg.append(usize_to_string(alvos).as_str());
                msg.append(" alvo(s), mas a chamada produz ");
                msg.append(usize_to_string(rettypes.len()).as_str());
                msg.append(" valor(es) de retorno.");
                self.error(loc, msg);
                return None;
            }
            let mut tipos: Vec<Type> = Vec::new();
            let mut i: usize = 0;
            while i < rettypes.len()
                invariant
                    i <= rettypes@.len(),
                    rettypes@.len() == alvos,
                    alvos == esperados@.len(),
                    tipos@.len() == i,
                    forall|j: int|
                        0 <= j < i ==> (#[trigger] esperados@[j] matches Some(e) ==> tipos@[j].model()
                            == e.model()),
                    self.wf(),
                    old(self).exp_step(*self),
                decreases rettypes@.len() - i,
            {
                match &esperados[i] {
                    Some(esperado) => {
                        if !esperado.compatible(&rettypes[i]) {
                            let expected = type_name_of(esperado);
                            let found = type_name_of(&rettypes[i]);
                            let mut msg = cat3("tipos incompatíveis no ", usize_to_string(i + 1).as_str(), "º alvo da ");
                            msg.append(contexto);
                            msg.append(" múltipla: esperado ");
                            msg.append(expected.as_str());
                            msg.append(", encontrado ");
                            msg.append(found.as_str());
                            msg.append(".");
                            self.error(loc, msg);
                            return None;
                        }
                        tipos.push(esperado.copy());
                    },
                    None => tipos.push(rettypes[i].copy()),
                }
                i += 1;
            }
            proof { lemma_call_exp_typing(*old(self), exps@[0], call); }
            return Some((TypedMultiValues::Call(call), tipos));
        }
        if exps.len() != alvos {
            let mut msg = String::from_str(contexto);
            msg.append(" múltipla com ");
            msg.append(usize_to_string(alvos).as_str());
            msg.append(" alvo(s), mas ");
            msg.append(usize_to_string(exps.len()).as_str());
            msg.append(" valor(es) à direita.");
            self.error(loc, msg);
            return None;
        }
        let mut typed: Vec<TypedExp> = Vec::new();
        let mut tipos: Vec<Type> = Vec::new();
        let mut i: usize = 0;
        while i < exps.len()
            invariant
                i <= exps@.len(),
                exps@.len() == alvos,
                alvos == esperados@.len(),
                tipos@.len() == i,
                forall|j: int|
                    0 <= j < i ==> (#[trigger] esperados@[j] matches Some(e) ==> tipos@[j].model()
                        == e.model()),
                typed@.len() == i,
                forall|j: int| 0 <= j < i ==> value_typing(*old(self), exps@[j], #[trigger] typed@[j]),
                self.wf(),
                old(self).exp_step(*self),
            decreases exps@.len() - i,
        {
            let esperado: Option<&Type> = match &esperados[i] {
                Some(t) => Some(t),
                None => None,
            };
            let ghost before = *self;
            let value = self.check_exp(&exps[i], esperado)?;
            proof {
                lemma_exp_typing_frame(before, *old(self), exps@[i as int], value);
                lemma_widened_value_typing(*old(self), exps@[i as int], value, value);
            }
            let ghost checked = value;
            match esperado {
                Some(esperado) => {
                    let value = Self::widen_to_option(esperado, value);
                    proof { lemma_widened_value_typing(*old(self), exps@[i as int], checked, value); }
                    if !esperado.compatible(&value.ty) {
                        if self.reject_option_where_base_expected(esperado, &value) {
                            return None;
                        }
                        let expected = type_name_of(esperado);
                        let found = type_name_of(&value.ty);
                        let mut msg = cat3("tipos incompatíveis no ", usize_to_string(i + 1).as_str(), "º alvo da ");
                        msg.append(contexto);
                        msg.append(" múltipla: esperado ");
                        msg.append(expected.as_str());
                        msg.append(", encontrado ");
                        msg.append(found.as_str());
                        msg.append(".");
                        self.error(value.loc, msg);
                        return None;
                    }
                    tipos.push(esperado.copy());
                    typed.push(value);
                },
                None => {
                    tipos.push(value.ty.copy());
                    typed.push(value);
                },
            }
            i += 1;
        }
        Some((TypedMultiValues::List(typed), tipos))
    }

    /// `local a, b = ...`: the names enter scope only after every value is
    /// checked (the right side sees the scope outside the declaration).
    #[verifier::loop_isolation(false)]
    pub fn check_decl_multi(&mut self, loc: Loc, decls: &Vec<Decl>, exps: &Vec<Exp>) -> (r: Option<TypedStat>)
        requires
            old(self).wf(),
        ensures
            final(self).wf(),
            old(self).stat_step(*final(self)),
            r is None ==> final(self).errors@.len() > old(self).errors@.len(),
            r matches Some(ts) ==> match ts {
                TypedStat::DeclMulti { loc: l, targets, values } => l == loc && targets@.len() == decls@.len()
                    && multi_values_typing(*old(self), exps@, values),
                _ => false,
            },
    {
        let mut anotados: Vec<Option<Type>> = Vec::new();
        let mut i: usize = 0;
        while i < decls.len()
            invariant
                i <= decls@.len(),
                anotados@.len() == i,
                self.wf(),
                old(self).exp_step(*self),
            decreases decls@.len() - i,
        {
            match &decls[i].ty {
                Some(annotated) => {
                    let t = self.resolve_type(annotated)?;
                    anotados.push(Some(t));
                },
                None => anotados.push(None),
            }
            i += 1;
        }
        let mut i: usize = 0;
        while i < decls.len()
            invariant
                i <= decls@.len(),
                self.wf(),
                old(self).exp_step(*self),
            decreases decls@.len() - i,
        {
            if decls[i].option {
                let mut msg = cat3("`", decls[i].name.as_str(), "?` não vale em declaração múltipla: escreva o tipo (`local ");
                msg.append(decls[i].name.as_str());
                msg.append(": T?, ...`).");
                self.error(decls[i].loc, msg);
                return None;
            }
            i += 1;
        }
        let ghost mid = *self;
        let (values, tipos) = self.check_multi_values(loc, &anotados, exps, "declaração")?;
        proof { lemma_multi_values_typing_frame(mid, *old(self), exps@, values); }
        let mut targets: Vec<TypedDeclTarget> = Vec::new();
        let mut i: usize = 0;
        while i < decls.len()
            invariant
                i <= decls@.len(),
                tipos@.len() == decls@.len(),
                targets@.len() == i,
                self.wf(),
                old(self).stat_step(*self),
            decreases decls@.len() - i,
        {
            let decl = &decls[i];
            let ty = tipos[i].copy();
            let decl_id = self.next_decl_id;
            self.next_decl_id = self.next_decl_id.saturating_add(1);
            let ghost before = self.st.entries@;
            self.declare(decl.name.as_str(), ty.copy(), SymbolKind::Local { decl_id }, decl.loc);
            proof { lemma_prefix_trans(old(self).st.entries@, before, self.st.entries@); }
            self.record_use(decl.loc, decl.loc, decl.name.as_str(), &ty);
            targets.push(TypedDeclTarget { loc: decl.loc, name: decl.name.clone(), ty, decl_id, mutable: false });
            i += 1;
        }
        Some(TypedStat::DeclMulti { loc, targets, values })
    }

    /// `a, b = ...`: every target is resolved as in a single assignment and
    /// every one is marked as reassigned.
    #[verifier::loop_isolation(false)]
    pub fn check_assign_multi(&mut self, loc: Loc, vars: &Vec<Var>, exps: &Vec<Exp>) -> (r: Option<TypedStat>)
        requires
            old(self).wf(),
        ensures
            old(self).exp_step(*final(self)),
            r is None ==> final(self).errors@.len() > old(self).errors@.len(),
            r matches Some(ts) ==> match ts {
                TypedStat::AssignMulti { loc: l, targets, values } => l == loc && targets@.len() == vars@.len()
                    && multi_values_typing(*old(self), exps@, values),
                _ => false,
            },
    {
        let mut alvos: Vec<AssignTarget> = Vec::new();
        let mut ok = true;
        let mut i: usize = 0;
        while i < vars.len()
            invariant
                i <= vars@.len(),
                ok ==> alvos@.len() == i,
                !ok ==> self.errors@.len() > old(self).errors@.len(),
                self.wf(),
                old(self).exp_step(*self),
            decreases vars@.len() - i,
        {
            match self.check_assign_target(loc, &vars[i]) {
                Some(alvo) => alvos.push(alvo),
                None => ok = false,
            }
            i += 1;
        }
        if !ok {
            return None;
        }
        let mut esperados: Vec<Option<Type>> = Vec::new();
        let mut i: usize = 0;
        while i < alvos.len()
            invariant
                i <= alvos@.len(),
                esperados@.len() == i,
            decreases alvos@.len() - i,
        {
            esperados.push(Some(alvos[i].ty.copy()));
            i += 1;
        }
        let ghost mid = *self;
        let (values, _tipos) = self.check_multi_values(loc, &esperados, exps, "atribuição")?;
        proof { lemma_multi_values_typing_frame(mid, *old(self), exps@, values); }
        let mut i: usize = 0;
        while i < alvos.len()
            invariant
                i <= alvos@.len(),
                self.wf(),
                old(self).exp_step(*self),
            decreases alvos@.len() - i,
        {
            self.mark_assigned(&alvos[i]);
            i += 1;
        }
        let mut targets: Vec<TypedLValue> = Vec::new();
        let n = alvos.len();
        let mut rest = alvos;
        let mut i: usize = 0;
        while i < n
            invariant
                i <= n,
                rest@.len() + i == n,
                targets@.len() == i,
            decreases n - i,
        {
            let alvo = rest.remove(0);
            targets.push(alvo.lvalue);
            i += 1;
        }
        Some(TypedStat::AssignMulti { loc, targets, values })
    }

    /// Reports each place in `block` that writes to `container` or passes
    /// it to a call, while a `for`-in iterates over it.
    pub fn reject_mutacao_durante_iteracao(&mut self, block: &Stat, container: &str)
        ensures
            old(self).same_scope(*final(self)),
            final(self).uses == old(self).uses,
            final(self).last_loc == old(self).last_loc,
            final(self).errors@.len() == old(self).errors@.len()
                + crate::checker::mutation::spec_mut_stat(*block, container@).len(),
            errors_view(final(self).errors@) == errors_view(old(self).errors@) + mutation_errors(
                crate::checker::mutation::spec_mut_stat(*block, container@),
                container@,
            ),
    {
        let mut ofensas: Vec<Loc> = Vec::new();
        coleta_mutacoes(block, container, &mut ofensas);
        let mut i: usize = 0;
        while i < ofensas.len()
            invariant
                i <= ofensas@.len(),
                ofensas@ == crate::checker::mutation::spec_mut_stat(*block, container@),
                old(self).same_scope(*self),
                self.uses == old(self).uses,
                self.last_loc == old(self).last_loc,
                self.errors@.len() == old(self).errors@.len() + i,
                errors_view(self.errors@) == errors_view(old(self).errors@) + mutation_errors(
                    ofensas@.subrange(0, i as int),
                    container@,
                ),
            decreases ofensas@.len() - i,
        {
            let mut msg = cat3("não é possível modificar '", container, "' dentro do `for`-in que itera sobre ele; ");
            msg.append("itere sobre uma cópia ou colete as mudanças e aplique-as depois do laço.");
            self.error(ofensas[i], msg);
            proof {
                assert(mutation_errors(ofensas@.subrange(0, i + 1), container@) =~= mutation_errors(
                    ofensas@.subrange(0, i as int),
                    container@,
                ).push((msg@, ofensas@[i as int])));
            }
            i += 1;
        }
        proof { assert(ofensas@.subrange(0, ofensas@.len() as int) =~= ofensas@); }
    }
}

impl Checker {
    /// Types a statement inside a function whose results have types
    /// `rettypes`.  A rejected statement always leaves at least one error
    /// behind; declarations go into the innermost open block.
    #[verifier::loop_isolation(false)]
    #[verifier::rlimit(50)]
    pub fn check_stat(&mut self, stat: &Stat, rettypes: &Vec<Type>) -> (r: Option<TypedStat>)
        requires
            old(self).wf(),
        ensures
            final(self).wf(),
            old(self).stat_step(*final(self)),
            r is None ==> final(self).errors@.len() > old(self).errors@.len(),
            r matches Some(ts) ==> stat_typing(*old(self), models(rettypes@), *stat, ts),
            stat matches Stat::StatBreak { loc } ==> if old(self).loop_depth > 0 {
                r == Some(TypedStat::Break { loc: *loc }) && final(self).errors == old(self).errors
            } else {
                r is None && errors_view(final(self).errors@) == errors_view(old(self).errors@).push(
                    ("`break` fora de um laço (`while`/`for`)."@, *loc),
                )
            },
            stat matches Stat::StatContinue { loc } ==> if old(self).loop_depth > 0 {
                r == Some(TypedStat::Continue { loc: *loc }) && final(self).errors == old(self).errors
            } else {
                r is None && errors_view(final(self).errors@) == errors_view(old(self).errors@).push(
                    ("`continue` fora de um laço (`while`/`for`)."@, *loc),
                )
            },
            stat matches Stat::StatReturn { loc, exps } ==> (all_accepted(old(self).st, exps@) && exps@.len()
                != rettypes@.len() ==> r is None && errors_view(final(self).errors@) == errors_view(
                old(self).errors@,
            ).push((return_arity_message(exps@.len(), rettypes@.len()), *loc))),
            stat matches Stat::StatReturn { exps, .. } ==> (forall|k: int|
                all_accepted(old(self).st, exps@) && exps@.len() == rettypes@.len() && first_return_mismatch(
                    old(self).st,
                    exps@,
                    models(rettypes@),
                    k,
                ) && !(returned_type(old(self).st, exps@[k], rettypes@[k].model()) is Option) ==> r is None && errors_view(
                    final(self).errors@,
                ) == errors_view(old(self).errors@).push(
                    (
                        "retorno incompatível: esperado "@ + spec_type_name(rettypes@[k].model()) + ", encontrado "@
                            + spec_type_name(returned_type(old(self).st, exps@[k], rettypes@[k].model())) + "."@,
                        operand_loc(exps@[k]),
                    ),
                )),
            stat matches Stat::StatReturn { exps, .. } ==> (return_fits(old(self).st, exps@, models(rettypes@)) ==> r is Some
                && errors_view(final(self).errors@) == errors_view(old(self).errors@)),
            stat matches Stat::StatBlock { stats, .. } ==> (stats@.len() == 0 ==> r is Some && errors_view(
                final(self).errors@,
            ) == errors_view(old(self).errors@)),
            stat matches Stat::StatDecl { decls, exps, .. } ==> (decls@.len() == 1 && exps@.len() == 1 ==> {
                &&& r matches Some(ts) ==> ts matches TypedStat::Decl { ty, .. } && final(self).st.resolve(
                    decls@[0].name@,
                ) matches Some(sym) && sym.kind is Local && sym.ty.model() == ty.model()
                &&& decl_accepted(old(self).st, old(self).records@, old(self).modules@, decls@[0], exps@[0]) ==> r is Some
                    && errors_view(final(self).errors@) == errors_view(old(self).errors@)
            }),
        decreases stat, 5int,
    {
        self.touch_loc(stat_loc(stat));
        let ghost touched = *self;
        match stat {
            Stat::StatBlock { loc, stats } => {
                self.enter_block();
                let mut typed_stats: Vec<TypedStat> = Vec::new();
                let mut ok = true;
                let mut i: usize = 0;
                while i < stats.len()
                    invariant
                        i <= stats@.len(),
                        self.wf(),
                        self.st.marks@ == old(self).st.marks@.push(old(self).st.entries@.len() as usize),
                        self.records == old(self).records,
                        self.modules == old(self).modules,
                        self.loop_depth == old(self).loop_depth,
                        self.foreigns == old(self).foreigns,
                        self.record_def_locs == old(self).record_def_locs,
                        self.field_def_locs == old(self).field_def_locs,
                        self.errors@.len() >= old(self).errors@.len(),
                        is_prefix(old(self).st.entries@, self.st.entries@),
                        ok ==> typed_stats@.len() == i,
                        ok ==> forall|j: int|
                            0 <= j < i ==> sub_typed(
                                *old(self),
                                old(self).loop_depth as int,
                                models(rettypes@),
                                stats@[j],
                                #[trigger] typed_stats@[j],
                            ),
                        !ok ==> self.errors@.len() > old(self).errors@.len(),
                        stats@.len() == 0 ==> ok && self.errors@ == old(self).errors@,
                    decreases stats@.len() - i,
                {
                    proof { assert(decreases_to!(stats => stats@[i as int])); }
                    let ghost before = self.st.entries@;
                    let ghost state = *self;
                    proof { assert(within(*old(self), state)); }
                    let r_i = self.check_stat(&stats[i], rettypes);
                    proof { lemma_prefix_trans(old(self).st.entries@, before, self.st.entries@); }
                    match r_i {
                        Some(typed) => {
                            proof {
                                assert(sub_typed(
                                    *old(self),
                                    old(self).loop_depth as int,
                                    models(rettypes@),
                                    stats@[i as int],
                                    typed,
                                ));
                            }
                            typed_stats.push(typed);
                        },
                        None => ok = false,
                    }
                    i += 1;
                }
                self.close_scope(*loc);
                assert(self.st.marks@ =~= old(self).st.marks@);
                assert(self.st.entries@ =~= old(self).st.entries@);
                if ok {
                    Some(TypedStat::Block { loc: *loc, stats: typed_stats })
                } else {
                    None
                }
            },
            Stat::StatDecl { loc, decls, exps } => {
                if decls.len() != 1 || exps.len() != 1 {
                    let r = self.check_decl_multi(*loc, decls, exps);
                    proof {
                        if r is Some {
                            lemma_stat_typing_frame(touched, *old(self), models(rettypes@), *stat, r->0);
                        }
                    }
                    return r;
                }
                let decl = &decls[0];
                let declared: Option<Type> = match &decl.ty {
                    Some(annotated) => Some(self.resolve_type(annotated)?),
                    None => None,
                };
                let context: Option<&Type> = match &declared {
                    Some(t) => Some(t),
                    None => None,
                };
                let ghost mid = *self;
                let value = self.check_exp(&exps[0], context)?;
                proof { lemma_exp_typing_frame(mid, *old(self), exps@[0], value); }
                let ghost checked = value;
                let (ty, value) = match declared {
                    Some(declared) => {
                        let value = Self::widen_to_option(&declared, value);
                        if !declared.compatible(&value.ty) {
                            if self.reject_option_where_base_expected(&declared, &value) {
                                return None;
                            }
                            let expected = type_name_of(&declared);
                            let found = type_name_of(&value.ty);
                            let mut msg = cat5(
                                "tipos incompatíveis na declaração de '",
                                decl.name.as_str(),
                                "': esperado ",
                                expected.as_str(),
                                ", encontrado ",
                            );
                            msg.append(found.as_str());
                            msg.append(".");
                            self.error(decl.loc, msg);
                            return None;
                        }
                        (declared, value)
                    },
                    None => {
                        if decl.option {
                            if matches!(value.ty, Type::Nil) {
                                let mut msg = cat5(
                                    "não dá para inferir o tipo de '",
                                    decl.name.as_str(),
                                    "?' a partir de `nil`: escreva o tipo (`local ",
                                    decl.name.as_str(),
                                    ": T? = nil`).",
                                );
                                self.error(decl.loc, msg);
                                return None;
                            }
                            let optional = Type::Option { base: Box::new(value.ty.copy()) };
                            let value = Self::widen_to_option(&optional, value);
                            (optional, value)
                        } else {
                            if matches!(value.ty, Type::Option { .. }) {
                                let found = type_name_of(&value.ty);
                                let mut msg = cat5(
                                    "tipo opcional não é inferido: escreva `local ",
                                    decl.name.as_str(),
                                    "? = ...` para declarar ",
                                    found.as_str(),
                                    " ou teste com `if ... ~= nil then` antes.",
                                );
                                self.error(decl.loc, msg);
                                return None;
                            }
                            (value.ty.copy(), value)
                        }
                    },
                };
                proof {
                    assert(is_widening_of(checked, value));
                    lemma_widened_value_typing(*old(self), exps@[0], checked, value);
                }
                let decl_id = self.next_decl_id;
                self.next_decl_id = self.next_decl_id.saturating_add(1);
                self.declare(decl.name.as_str(), ty.copy(), SymbolKind::Local { decl_id }, decl.loc);
                self.record_use(decl.loc, decl.loc, decl.name.as_str(), &ty);
                Some(TypedStat::Decl { loc: *loc, name: decl.name.clone(), ty, value, decl_id, mutable: false })
            },
            Stat::StatCall { loc, callexp } => {
                let call = match callexp {
                    Exp::ExpCall { .. } => {
                        let (call, _rettypes) = self.check_call(callexp)?;
                        proof { lemma_call_exp_typing(touched, *callexp, call); }
                        call
                    },
                    other => self.check_exp(other, None)?,
                };
                proof { lemma_exp_typing_frame(touched, *old(self), *callexp, call); }
                Some(TypedStat::Call { loc: *loc, call })
            },
            Stat::StatReturn { loc, exps } => {
                let ghost accepted = all_accepted(old(self).st, exps@);
                let ghost fits = return_fits(old(self).st, exps@, models(rettypes@));
                let mut typed_exps: Vec<TypedExp> = Vec::new();
                let mut ok = true;
                let mut i: usize = 0;
                while i < exps.len()
                    invariant
                        i <= exps@.len(),
                        self.wf(),
                        old(self).exp_step(*self),
                        ok ==> typed_exps@.len() == i,
                        ok ==> forall|j: int| 0 <= j < i ==> exp_typing(*old(self), exps@[j], #[trigger] typed_exps@[j]),
                        !ok ==> self.errors@.len() > old(self).errors@.len(),
                        accepted == all_accepted(old(self).st, exps@),
                        accepted ==> ok && errors_view(self.errors@) == errors_view(old(self).errors@),
                        fits == return_fits(old(self).st, exps@, models(rettypes@)),
                        fits ==> ok && errors_view(self.errors@) == errors_view(old(self).errors@),
                        fits ==> forall|j: int| 0 <= j < i ==> Some(#[trigger] typed_exps@[j].ty.model()) == accept(old(self).st, exps@[j]),
                        accepted ==> forall|j: int| 0 <= j < i ==> Some(#[trigger] typed_exps@[j].ty.model()) == op_verdict(old(self).st, exps@[j]).0
                            && typed_exps@[j].loc == operand_loc(exps@[j]),
                    decreases exps@.len() - i,
                {
                    proof {
                        if accepted {
                            assert(is_operator_exp(exps@[i as int]));
                            lemma_typed_verdict_has_no_errors(old(self).st, exps@[i as int]);
                        }
                        if fits {
                            assert(accept(old(self).st, exps@[i as int]) is Some);
                        }
                    }
                    let ghost e_before = errors_view(self.errors@);
                    let context: Option<&Type> = if i < rettypes.len() {
                        Some(&rettypes[i])
                    } else {
                        None
                    };
                    let ghost before = *self;
                    match self.check_exp(&exps[i], context) {
                        Some(typed) => {
                            proof {
                                lemma_exp_typing_frame(before, *old(self), exps@[i as int], typed);
                                if accepted || fits {
                                    assert(errors_view(self.errors@) =~= e_before);
                                }
                            }
                            typed_exps.push(typed);
                        },
                        None => ok = false,
                    }
                    i += 1;
                }
                if !ok {
                    return None;
                }
                if typed_exps.len() != rettypes.len() {
                    let mut msg = cat3("retornou ", usize_to_string(typed_exps.len()).as_str(), " valor(es), mas a função espera ");
                    msg.append(usize_to_string(rettypes.len()).as_str());
                    msg.append(".");
                    self.error(*loc, msg);
                    return None;
                }
                let mut widened: Vec<TypedExp> = Vec::new();
                let ghost all_typed = typed_exps@;
                let mut rest = typed_exps;
                let mut i: usize = 0;
                while i < rettypes.len()
                    invariant
                        i <= rettypes@.len(),
                        rest@.len() + i == rettypes@.len(),
                        widened@.len() == i,
                        all_typed.len() == rettypes@.len(),
                        rest@ == all_typed.subrange(i as int, all_typed.len() as int),
                        forall|j: int| 0 <= j < all_typed.len() ==> exp_typing(*old(self), exps@[j], #[trigger] all_typed[j]),
                        forall|j: int| 0 <= j < i ==> value_typing(*old(self), exps@[j], #[trigger] widened@[j]),
                        fits == return_fits(old(self).st, exps@, models(rettypes@)),
                        fits ==> forall|k: int| 0 <= k < all_typed.len() ==> Some(#[trigger] all_typed[k].ty.model()) == accept(old(self).st, exps@[k]),
                        fits ==> forall|k: int| 0 <= k < i ==> #[trigger] widened@[k].ty.model() == widened_type(models(rettypes@)[k], all_typed[k].ty.model()),
                        fits ==> errors_view(self.errors@) == errors_view(old(self).errors@),
                        accepted == all_accepted(old(self).st, exps@),
                        accepted ==> errors_view(self.errors@) == errors_view(old(self).errors@),
                        accepted ==> forall|k: int| 0 <= k < all_typed.len() ==> Some(#[trigger] all_typed[k].ty.model()) == op_verdict(old(self).st, exps@[k]).0
                            && all_typed[k].loc == operand_loc(exps@[k]),
                        accepted ==> forall|k: int| 0 <= k < i ==> #[trigger] widened@[k].ty.model() == widened_type(models(rettypes@)[k], all_typed[k].ty.model())
                            && widened@[k].loc == all_typed[k].loc,
                    decreases rettypes@.len() - i,
                {
                    let e = rest.remove(0);
                    let ghost eg = e;
                    let w = Self::widen_to_option(&rettypes[i], e);
                    proof {
                        assert(eg == all_typed[i as int]);
                        lemma_widened_value_typing(*old(self), exps@[i as int], eg, w);
                    }
                    widened.push(w);
                    proof {
                        assert(rest@ =~= all_typed.subrange(i + 1, all_typed.len() as int));
                    }
                    i += 1;
                }
                let mut i: usize = 0;
                while i < widened.len()
                    invariant
                        i <= widened@.len(),
                        widened@.len() == rettypes@.len(),
                        self.wf(),
                        old(self).exp_step(*self),
                        forall|j: int| 0 <= j < i ==> compatible_spec(#[trigger] models(rettypes@)[j], widened@[j].ty.model()),
                        forall|j: int| 0 <= j < widened@.len() ==> value_typing(*old(self), exps@[j], #[trigger] widened@[j]),
                        fits == return_fits(old(self).st, exps@, models(rettypes@)),
                        fits ==> all_typed.len() == widened@.len(),
                        fits ==> forall|k: int| 0 <= k < all_typed.len() ==> Some(#[trigger] all_typed[k].ty.model()) == accept(old(self).st, exps@[k]),
                        fits ==> forall|k: int| 0 <= k < widened@.len() ==> #[trigger] widened@[k].ty.model() == widened_type(models(rettypes@)[k], all_typed[k].ty.model()),
                        fits ==> errors_view(self.errors@) == errors_view(old(self).errors@),
                        accepted == all_accepted(old(self).st, exps@),
                        accepted ==> all_typed.len() == widened@.len(),
                        accepted ==> errors_view(self.errors@) == errors_view(old(self).errors@),
                        accepted ==> forall|k: int| 0 <= k < all_typed.len() ==> Some(#[trigger] all_typed[k].ty.model()) == op_verdict(old(self).st, exps@[k]).0
                            && all_typed[k].loc == operand_loc(exps@[k]),
                        accepted ==> forall|k: int| 0 <= k < widened@.len() ==> #[trigger] widened@[k].ty.model() == widened_type(models(rettypes@)[k], all_typed[k].ty.model())
                            && widened@[k].loc == all_typed[k].loc,
                    decreases widened@.len() - i,
                {
                    proof {
                        if fits {
                            assert(accept(old(self).st, exps@[i as int]) is Some);
                            assert(models(rettypes@)[i as int] == rettypes@[i as int].model());
                        }
                    }
                    if !rettypes[i].compatible(&widened[i].ty) {
                        if self.reject_option_where_base_expected(&rettypes[i], &widened[i]) {
                            return None;
                        }
                        let expected = type_name_of(&rettypes[i]);
                        let found = type_name_of(&widened[i].ty);
                        let msg = cat5("retorno incompatível: esperado ", expected.as_str(), ", encontrado ", found.as_str(), ".");
                        proof {
                            if accepted {
                                assert(models(rettypes@)[i as int] == rettypes@[i as int].model());
                                assert forall|k: int| all_accepted(old(self).st, exps@) && exps@.len() == rettypes@.len() && first_return_mismatch(
                                    old(self).st,
                                    exps@,
                                    models(rettypes@),
                                    k,
                                ) implies k == i by {
                                    if k < i {
                                        assert(compatible_spec(models(rettypes@)[k], widened@[k].ty.model()));
                                    }
                                    if k > i {
                                        assert(!compatible_spec(models(rettypes@)[i as int], widened@[i as int].ty.model()));
                                    }
                                }
                            }
                        }
                        proof {
                            if accepted {
                                assert(all_typed[i as int].ty.model() == op_verdict(old(self).st, exps@[i as int]).0->0);
                                assert(widened@[i as int].ty.model() == returned_type(old(self).st, exps@[i as int], rettypes@[i as int].model()));
                                assert(widened@[i as int].loc == operand_loc(exps@[i as int]));
                                assert(msg@ == "retorno incompatível: esperado "@ + spec_type_name(rettypes@[i as int].model()) + ", encontrado "@
                                    + spec_type_name(returned_type(old(self).st, exps@[i as int], rettypes@[i as int].model())) + "."@);
                            }
                        }
                        let ghost e_pre = errors_view(self.errors@);
                        self.error(widened[i].loc, msg);
                        proof {
                            if accepted {
                                assert(e_pre == errors_view(old(self).errors@));
                                assert(errors_view(self.errors@) == errors_view(old(self).errors@).push(
                                    (msg@, operand_loc(exps@[i as int])),
                                ));
                            }
                        }
                        return None;
                    }
                    i += 1;
                }
                Some(TypedStat::Return { loc: *loc, exps: widened })
            },
            Stat::StatIf { loc, thens, elsestat } => {
                if thens.len() == 0 {
                    self.error(*loc, String::from_str("um `if` precisa de ao menos uma condição."));
                    return None;
                }
                let mut typed_thens: Vec<TypedThen> = Vec::new();
                let mut ok = true;
                let mut i: usize = 0;
                while i < thens.len()
                    invariant
                        i <= thens@.len(),
                        self.wf(),
                        old(self).stat_step(*self),
                        ok ==> typed_thens@.len() == i,
                        is_prefix(old(self).st.entries@, self.st.entries@),
                        ok ==> forall|j: int| 0 <= j < i ==> is_condition(#[trigger] typed_thens@[j].condition),
                        ok ==> forall|j: int|
                            0 <= j < i ==> (!is_and_condition(thens@[j].condition) ==> exp_typing(
                                *old(self),
                                thens@[j].condition,
                                #[trigger] typed_thens@[j].condition,
                            )),
                        self.st.entries@ == old(self).st.entries@,
                        ok ==> forall|j: int|
                            0 <= j < i ==> sub_typed(
                                *old(self),
                                old(self).loop_depth as int,
                                models(rettypes@),
                                thens@[j].block,
                                (#[trigger] typed_thens@[j]).block,
                            ),
                        !ok ==> self.errors@.len() > old(self).errors@.len(),
                    decreases thens@.len() - i,
                {
                    proof { assert(decreases_to!(thens => thens@[i as int])); }
                    let then = &thens[i];
                    let ghost e0 = self.st.entries@;
                    self.enter_block();
                    let ghost opened = *self;
                    let (condition, narrowed) = self.check_if_condition(&then.condition);
                    proof {
                        if condition is Some && !is_and_condition(then.condition) {
                            lemma_exp_typing_frame(opened, *old(self), then.condition, condition->0);
                        }
                    }
                    let ghost e1 = self.st.entries@;
                    let ghost in_branch = *self;
                    proof {
                        lemma_prefix_trans(old(self).st.entries@, e0, e1);
                        assert(within(*old(self), in_branch));
                    }
                    let block = self.check_stat(&then.block, rettypes);
                    proof { lemma_prefix_trans(e0, e1, self.st.entries@); }
                    self.leave_block();
                    assert(self.st.entries@ =~= e0);
                    proof { lemma_prefix_trans(old(self).st.entries@, e0, self.st.entries@); }
                    assert(self.st.marks@ =~= old(self).st.marks@);
                    match condition {
                        Some(condition) => match block {
                            Some(block) => typed_thens.push(TypedThen { loc: then.loc, condition, block, narrowed }),
                            None => ok = false,
                        },
                        None => ok = false,
                    }
                    i += 1;
                }
                let ghost e2 = self.st.entries@;
                let ghost at_else = *self;
                proof { assert(within(*old(self), at_else)); }
                let typed_else_r = match elsestat {
                    Some(stat) => Some(self.check_stat(&**stat, rettypes)),
                    None => None,
                };
                proof {
                    if elsestat is Some {
                        lemma_prefix_trans(old(self).st.entries@, e2, self.st.entries@);
                    }
                }
                let typed_else = match typed_else_r {
                    Some(r_else) => match r_else {
                        Some(typed) => Some(Box::new(typed)),
                        None => {
                            ok = false;
                            None
                        },
                    },
                    None => None,
                };
                if !ok {
                    return None;
                }
                Some(TypedStat::If { loc: *loc, thens: typed_thens, elsestat: typed_else })
            },
            Stat::StatWhile { loc, condition, block } => {
                let ghost cond_exp = *condition;
                let condition = self.check_condition(condition, "while");
                proof {
                    if condition is Some {
                        lemma_exp_typing_frame(touched, *old(self), cond_exp, condition->0);
                    }
                }
                let saved = self.loop_depth;
                self.loop_depth = saved.saturating_add(1);
                let ghost in_loop = *self;
                proof {
                    assert(within(*old(self), in_loop));
                    assert(in_loop.loop_depth == loop_body_depth(old(self).loop_depth));
                }
                let block = self.check_stat(&**block, rettypes);
                self.loop_depth = saved;
                let condition = condition?;
                let block = block?;
                Some(TypedStat::While { loc: *loc, condition, block: Box::new(block) })
            },
            Stat::StatRepeat { .. } => {
                let r = self.check_repeat(stat, rettypes);
                proof {
                    if r is Some {
                        lemma_stat_typing_frame(touched, *old(self), models(rettypes@), *stat, r->0);
                    }
                }
                r
            },
            Stat::StatFor { .. } => {
                let r = self.check_for(stat, rettypes);
                proof {
                    if r is Some {
                        lemma_stat_typing_frame(touched, *old(self), models(rettypes@), *stat, r->0);
                    }
                }
                r
            },
            Stat::StatForIn { .. } => {
                let r = self.check_for_in(stat, rettypes);
                proof {
                    if r is Some {
                        lemma_stat_typing_frame(touched, *old(self), models(rettypes@), *stat, r->0);
                    }
                }
                r
            },
            Stat::StatAssign { loc, vars, exps } => {
                if vars.len() != 1 || exps.len() != 1 {
                    let r = self.check_assign_multi(*loc, vars, exps);
                    proof {
                        if r is Some {
                            lemma_stat_typing_frame(touched, *old(self), models(rettypes@), *stat, r->0);
                        }
                    }
                    return r;
                }
                let r = self.check_assign(*loc, &vars[0], &exps[0]);
                proof {
                    if r is Some {
                        lemma_value_typing_frame(touched, *old(self), exps@[0], r->0->Assign_value);
                    }
                }
                r
            },
            Stat::StatBreak { loc } => {
                if self.loop_depth == 0 {
                    let msg = String::from_str("`break` fora de um laço (`while`/`for`).");
                    proof { reveal_strlit("`break` fora de um laço (`while`/`for`)."); }
                    self.error(*loc, msg);
                    return None;
                }
                Some(TypedStat::Break { loc: *loc })
            },
            Stat::StatContinue { loc } => {
                if self.loop_depth == 0 {
                    let msg = String::from_str("`continue` fora de um laço (`while`/`for`).");
                    proof { reveal_strlit("`continue` fora de um laço (`while`/`for`)."); }
                    self.error(*loc, msg);
                    return None;
                }
                Some(TypedStat::Continue { loc: *loc })
            },
        }
    }

    /// `repeat block until cond`: the condition sees the locals declared in
    /// the body, so the body's block is closed only after the condition.
    #[verifier::loop_isolation(false)]
    pub fn check_repeat(&mut self, stat: &Stat, rettypes: &Vec<Type>) -> (r: Option<TypedStat>)
        requires
            old(self).wf(),
            stat is StatRepeat,
        ensures
            final(self).wf(),
            old(self).stat_step(*final(self)),
            r is None ==> final(self).errors@.len() > old(self).errors@.len(),
            r matches Some(ts) ==> stat_typing(*old(self), models(rettypes@), *stat, ts),
        decreases stat, 2int,
    {
        let (loc, block, condition) = match stat {
            Stat::StatRepeat { loc, block, condition } => (*loc, &**block, condition),
            _ => {
                proof { assert(false); }
                return None;
            },
        };
        let (block_loc, stats) = match block {
            Stat::StatBlock { loc, stats } => (*loc, stats),
            _ => {
                self.error(loc, String::from_str("corpo de `repeat` precisa ser um bloco."));
                return None;
            },
        };
        self.touch_loc(block_loc);
        self.enter_block();
        let mut typed_stats: Vec<TypedStat> = Vec::new();
        let mut ok = true;
        let saved = self.loop_depth;
        self.loop_depth = saved.saturating_add(1);
        let mut i: usize = 0;
        while i < stats.len()
            invariant
                i <= stats@.len(),
                self.wf(),
                self.st.marks@ == old(self).st.marks@.push(old(self).st.entries@.len() as usize),
                self.records == old(self).records,
                self.modules == old(self).modules,
                self.loop_depth == saved.saturating_add(1),
                saved == old(self).loop_depth,
                self.foreigns == old(self).foreigns,
                self.record_def_locs == old(self).record_def_locs,
                self.field_def_locs == old(self).field_def_locs,
                self.errors@.len() >= old(self).errors@.len(),
                is_prefix(old(self).st.entries@, self.st.entries@),
                ok ==> typed_stats@.len() == i,
                ok ==> forall|j: int|
                    0 <= j < i ==> sub_typed(
                        *old(self),
                        loop_body_depth(old(self).loop_depth),
                        models(rettypes@),
                        stats@[j],
                        #[trigger] typed_stats@[j],
                    ),
                !ok ==> self.errors@.len() > old(self).errors@.len(),
            decreases stats@.len() - i,
        {
            proof { assert(decreases_to!(stats => stats@[i as int])); }
            let ghost before = self.st.entries@;
            let ghost state = *self;
            proof {
                assert(within(*old(self), state));
                assert(state.loop_depth == loop_body_depth(old(self).loop_depth));
            }
            let r_i = self.check_stat(&stats[i], rettypes);
            proof { lemma_prefix_trans(old(self).st.entries@, before, self.st.entries@); }
            match r_i {
                Some(typed) => {
                    proof {
                        assert(sub_typed(
                            *old(self),
                            loop_body_depth(old(self).loop_depth),
                            models(rettypes@),
                            stats@[i as int],
                            typed,
                        ));
                    }
                    typed_stats.push(typed);
                },
                None => ok = false,
            }
            i += 1;
        }
        self.loop_depth = saved;
        let ghost at_until = *self;
        proof { assert(within(*old(self), at_until)); }
        let typed_condition = self.check_condition(condition, "until");
        self.close_scope(block_loc);
        assert(self.st.entries@ =~= old(self).st.entries@);
        assert(self.st.marks@ =~= old(self).st.marks@);
        if !ok {
            return None;
        }
        let condition = typed_condition?;
        Some(
            TypedStat::Repeat {
                loc,
                block: Box::new(TypedStat::Block { loc: block_loc, stats: typed_stats }),
                condition,
            },
        )
    }
}

impl Checker {
    /// Checks that a bound of a numeric `for` has exactly the type of the
    /// control variable.
    fn check_for_bound(&mut self, typed: &TypedExp, var_ty: &Type, papel: &str) -> (r: bool)
        ensures
            r == equals_spec(typed.ty.model(), var_ty.model()),
            old(self).same_scope(*final(self)),
            final(self).uses == old(self).uses,
            final(self).last_loc == old(self).last_loc,
            final(self).errors@.len() == old(self).errors@.len() + (if r { 0int } else { 1int }),
    {
        if typed.ty.equals(var_ty) {
            return true;
        }
        let expected = type_name_of(var_ty);
        let found = type_name_of(&typed.ty);
        let mut msg = cat3("o ", papel, " do `for` precisa ter o mesmo tipo da variável de controle (");
        msg.append(expected.as_str());
        msg.append("), encontrado ");
        msg.append(found.as_str());
        msg.append(".");
        self.error(typed.loc, msg);
        false
    }

    /// Numeric `for`: the bounds are checked before the control variable is
    /// declared, and must have exactly its type (`integer` or `float`, from
    /// the annotation or else from the start value); an omitted step is `1`
    /// (or `1.0`).
    pub fn check_for(&mut self, stat: &Stat, rettypes: &Vec<Type>) -> (r: Option<TypedStat>)
        requires
            old(self).wf(),
            stat is StatFor,
        ensures
            final(self).wf(),
            old(self).stat_step(*final(self)),
            r is None ==> final(self).errors@.len() > old(self).errors@.len(),
            r matches Some(ts) ==> stat_typing(*old(self), models(rettypes@), *stat, ts),
        decreases stat, 2int,
    {
        let (loc, decl, start, finish, inc, block) = match stat {
            Stat::StatFor { loc, decl, start, finish, inc, block } => (*loc, &**decl, &**start, &**finish, inc, &**block),
            _ => {
                proof { assert(false); }
                return None;
            },
        };
        let typed_start = self.check_exp(start, None)?;
        let ghost s1 = *self;
        let typed_finish = self.check_exp(finish, None)?;
        proof { lemma_exp_typing_frame(s1, *old(self), *finish, typed_finish); }
        let ghost s2 = *self;
        let typed_inc = match inc {
            Some(e) => Some(self.check_exp(&**e, None)?),
            None => None,
        };
        proof {
            if inc is Some {
                lemma_exp_typing_frame(s2, *old(self), *inc->0, typed_inc->0);
            }
        }
        if decl.option {
            self.error(decl.loc, String::from_str("a variável de controle do `for` não pode ser opcional (`?`)."));
            return None;
        }
        let var_ty = match &decl.ty {
            Some(annotated) => self.resolve_type(annotated)?,
            None => typed_start.ty.copy(),
        };
        if !matches!(var_ty, Type::Integer | Type::Float) {
            let found = type_name_of(&var_ty);
            self.error(
                decl.loc,
                cat3("a variável de controle do `for` precisa ser integer ou float, encontrado ", found.as_str(), "."),
            );
            return None;
        }
        let ok_start = self.check_for_bound(&typed_start, &var_ty, "valor inicial");
        let ok_finish = self.check_for_bound(&typed_finish, &var_ty, "limite");
        let ok_inc = match &typed_inc {
            Some(t) => self.check_for_bound(t, &var_ty, "passo"),
            None => true,
        };
        if !(ok_start && ok_finish && ok_inc) {
            return None;
        }
        let typed_inc = match typed_inc {
            Some(t) => t,
            None => {
                let kind = if matches!(var_ty, Type::Integer) {
                    TypedExpKind::Integer(1)
                } else {
                    TypedExpKind::Float(0x3FF0_0000_0000_0000u64)
                };
                proof { lemma_equals_reflexive(var_ty.model()); }
                TypedExp { loc: typed_finish.loc, ty: var_ty.copy(), kind }
            },
        };
        let ghost e0 = self.st.entries@;
        self.enter_block();
        self.declare(decl.name.as_str(), var_ty.copy(), SymbolKind::ForVar, decl.loc);
        self.record_use(decl.loc, decl.loc, decl.name.as_str(), &var_ty);
        let ghost e1 = self.st.entries@;
        let saved = self.loop_depth;
        self.loop_depth = saved.saturating_add(1);
        let ghost in_loop = *self;
        proof {
            assert(e0 == old(self).st.entries@);
            assert(within(*old(self), in_loop));
            assert(in_loop.loop_depth == loop_body_depth(old(self).loop_depth));
        }
        let typed_block = self.check_stat(block, rettypes);
        proof { lemma_prefix_trans(e0, e1, self.st.entries@); }
        self.loop_depth = saved;
        self.close_scope(decl.loc);
        assert(self.st.entries@ =~= e0);
        assert(self.st.marks@ =~= old(self).st.marks@);
        let typed_block = typed_block?;
        Some(
            TypedStat::For {
                loc,
                name: decl.name.clone(),
                ty: var_ty,
                start: typed_start,
                finish: typed_finish,
                inc: Box::new(typed_inc),
                block: Box::new(typed_block),
            },
        )
    }

    /// `for x in v do` over `{T}` and `for k, v in m do` over `{K: V}`: the
    /// container is checked before any loop name is in scope, the number of
    /// names must match the container, annotations must say what the
    /// container holds, and the body may not modify the container.
    pub fn check_for_in(&mut self, stat: &Stat, rettypes: &Vec<Type>) -> (r: Option<TypedStat>)
        requires
            old(self).wf(),
            stat is StatForIn,
        ensures
            final(self).wf(),
            old(self).stat_step(*final(self)),
            r is None ==> final(self).errors@.len() > old(self).errors@.len(),
            r matches Some(ts) ==> stat_typing(*old(self), models(rettypes@), *stat, ts),
            final(self).st.entries@ == old(self).st.entries@,
            final(self).st.marks@ == old(self).st.marks@,
            final(self).loop_depth == old(self).loop_depth,
            stat matches Stat::StatForIn { loc, decls, exp, block } ==> (is_operator_exp(*exp) && for_in_header_errors(
                old(self).st,
                *loc,
                decls@,
                *exp,
            ) is None && (forall|i: int| 0 <= i < decls@.len() ==> (#[trigger] decls@[i]).ty is None) && is_empty_block(**block) ==> r is Some
                && errors_view(final(self).errors@) == errors_view(old(self).errors@)),
            stat matches Stat::StatForIn { loc, decls, exp, .. } ==> (is_operator_exp(*exp) ==> (for_in_header_errors(
                old(self).st,
                *loc,
                decls@,
                *exp,
            ) matches Some(errs) ==> r is None && errors_view(final(self).errors@) == errors_view(old(self).errors@)
                + errs)),
        decreases stat, 2int,
    {
        let (loc, decls, exp, block) = match stat {
            Stat::StatForIn { loc, decls, exp, block } => (*loc, decls, exp, &**block),
            _ => {
                proof { assert(false); }
                return None;
            },
        };
        let ghost frag = is_operator_exp(*exp);
        let ghost hv = for_in_header_errors(old(self).st, loc, decls@, *exp);
        proof {
            if frag {
                lemma_typed_verdict_has_no_errors(old(self).st, *exp);
            }
        }
        let container = self.check_exp(exp, None)?;
        proof {
            if frag {
                assert(errors_view(self.errors@) =~= errors_view(old(self).errors@));
            }
        }
        if self.reject_option(&container) {
            return None;
        }
        let mut i: usize = 0;
        while i < decls.len()
            invariant
                i <= decls@.len(),
                self.wf(),
                old(self).exp_step(*self),
                forall|j: int| 0 <= j < i ==> !(#[trigger] decls@[j]).option,
                frag ==> errors_view(self.errors@) == errors_view(old(self).errors@),
                frag == is_operator_exp(*exp),
                frag ==> op_verdict(old(self).st, *exp).0 == Some(container.ty.model()),
                !(container.ty.model() is Option),
                hv == for_in_header_errors(old(self).st, loc, decls@, *exp),
                stat->StatForIn_loc == loc,
                stat->StatForIn_decls@ == decls@,
                stat->StatForIn_exp == *exp,
            decreases decls@.len() - i,
        {
            if decls[i].option {
                let msg = String::from_str("a variável do `for`-in não pode ser opcional (`?`).");
                proof {
                    reveal_strlit("a variável do `for`-in não pode ser opcional (`?`).");
                    let c = choose|c: int| 0 <= c < decls@.len() && decls@[c].option && forall|j: int| 0 <= j < c ==> !(#[trigger] decls@[j]).option;
                    assert(0 <= i < decls@.len() && decls@[i as int].option && forall|j: int| 0 <= j < i ==> !(#[trigger] decls@[j]).option);
                    assert(c == i) by {
                        if c < i {
                            assert(!decls@[c].option);
                        }
                        if c > i {
                            assert(!decls@[i as int].option);
                        }
                    }
                    assert(first_optional(decls@) == Some(i as int));
                    if frag {
                        assert(hv == Some(seq![(msg@, decls@[i as int].loc)]));
                    }
                    lemma_push_is_concat(errors_view(self.errors@), (msg@, decls@[i as int].loc));
                }
                self.error(decls[i].loc, msg);
                return None;
            }
            i += 1;
        }
        proof {
            assert(first_optional(decls@) is None);
        }
        if decls.len() == 2 && crate::text::str_eq(decls[0].name.as_str(), decls[1].name.as_str()) {
            let msg = cat3(
                "'",
                decls[1].name.as_str(),
                "' aparece duas vezes nas variáveis do `for`-in; chave e valor precisam de nomes diferentes.",
            );
            proof { lemma_push_is_concat(errors_view(self.errors@), (msg@, decls@[1].loc)); }
            self.error(decls[1].loc, msg);
            return None;
        }
        let ghost good = frag && hv is None && (forall|i: int| 0 <= i < decls@.len() ==> (#[trigger] decls@[i]).ty is None)
            && is_empty_block(*block);
        let ghost e_header = errors_view(self.errors@);
        proof {
            if good {
                assert(e_header == errors_view(old(self).errors@));
            }
        }
        let shown = type_name_of(&container.ty);
        let kind = match &container.ty {
            Type::Array { elem } => {
                if decls.len() != 1 {
                    let mut msg = cat3("iterar sobre ", shown.as_str(), " liga um nome (o elemento); encontrei ");
                    msg.append(usize_to_string(decls.len()).as_str());
                    msg.append(". Escreva `for x in ... do`.");
                    proof { lemma_push_is_concat(errors_view(self.errors@), (msg@, loc)); }
                    self.error(loc, msg);
                    return None;
                }
                let elem_ty = (**elem).copy();
                let ty = self.for_in_var_type(&decls[0], &elem_ty, "o elemento")?;
                proof {
                    if decls@[0].ty is None {
                        lemma_equals_reflexive(elem_ty.model());
                    }
                }
                TypedForInKind::Array { name: decls[0].name.clone(), elem_ty: ty }
            },
            Type::Dict { keys, values } => {
                if decls.len() != 2 {
                    let mut msg = cat3("iterar sobre ", shown.as_str(), " liga dois nomes (chave e valor); encontrei ");
                    msg.append(usize_to_string(decls.len()).as_str());
                    msg.append(". Escreva `for k, v in ... do`.");
                    proof { lemma_push_is_concat(errors_view(self.errors@), (msg@, loc)); }
                    self.error(loc, msg);
                    return None;
                }
                let key_expected = (**keys).copy();
                let value_expected = (**values).copy();
                let key_ty = self.for_in_var_type(&decls[0], &key_expected, "a chave")?;
                let value_ty = self.for_in_var_type(&decls[1], &value_expected, "o valor")?;
                proof {
                    lemma_equals_reflexive(key_expected.model());
                    lemma_equals_reflexive(value_expected.model());
                }
                TypedForInKind::Dict {
                    key_name: decls[0].name.clone(),
                    key_ty,
                    value_name: decls[1].name.clone(),
                    value_ty,
                }
            },
            _ => {
                let msg = cat3("o `for`-in itera sobre array (`{T}`) ou map (`{K: V}`), encontrado ", shown.as_str(), ".");
                proof { lemma_push_is_concat(errors_view(self.errors@), (msg@, container.loc)); }
                self.error(container.loc, msg);
                return None;
            },
        };
        proof {
            if good {
                assert(errors_view(self.errors@) == errors_view(old(self).errors@));
            }
        }
        match root_exp_var_name(exp) {
            Some(nome) => {
                self.reject_mutacao_durante_iteracao(block, nome.as_str());
                proof {
                    if good {
                        let body_stats = block->StatBlock_stats;
                        assert(body_stats@.len() == 0);
                        assert(crate::checker::mutation::spec_mut_stats(body_stats@, nome@).len() == 0);
                        assert(crate::checker::mutation::spec_mut_stat(*block, nome@).len() == 0);
                        assert(errors_view(self.errors@) =~= errors_view(old(self).errors@));
                    }
                }
            },
            None => {},
        }
        let ghost e0 = self.st.entries@;
        self.enter_block();
        match &kind {
            TypedForInKind::Array { name, elem_ty } => {
                self.declare(name.as_str(), elem_ty.copy(), SymbolKind::ForVar, decls[0].loc);
                self.record_use(decls[0].loc, decls[0].loc, name.as_str(), elem_ty);
            },
            TypedForInKind::Dict { key_name, key_ty, value_name, value_ty } => {
                self.declare(key_name.as_str(), key_ty.copy(), SymbolKind::ForVar, decls[0].loc);
                self.record_use(decls[0].loc, decls[0].loc, key_name.as_str(), key_ty);
                let ghost ek = self.st.entries@;
                self.declare(value_name.as_str(), value_ty.copy(), SymbolKind::ForVar, decls[1].loc);
                self.record_use(decls[1].loc, decls[1].loc, value_name.as_str(), value_ty);
                proof { lemma_prefix_trans(e0, ek, self.st.entries@); }
            },
        }
        let ghost e1 = self.st.entries@;
        let saved = self.loop_depth;
        self.loop_depth = saved.saturating_add(1);
        let ghost in_loop = *self;
        proof {
            assert(e0 == old(self).st.entries@);
            assert(within(*old(self), in_loop));
            assert(in_loop.loop_depth == loop_body_depth(old(self).loop_depth));
        }
        let ghost e_before_body = errors_view(self.errors@);
        let typed_block = self.check_stat(block, rettypes);
        proof { lemma_prefix_trans(e0, e1, self.st.entries@); }
        self.loop_depth = saved;
        self.close_scope(loc);
        assert(self.st.entries@ =~= e0);
        assert(self.st.marks@ =~= old(self).st.marks@);
        let typed_block = typed_block?;
        Some(TypedStat::ForIn { loc, kind, container, block: Box::new(typed_block) })
    }
}

} // verus!
