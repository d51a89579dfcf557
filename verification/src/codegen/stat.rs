//! Emission of statements, each on its own indented lines.  As for
//! expressions, the `spec_` functions say what text each statement becomes,
//! and the emitting functions append exactly that text or report that the
//! tree holds something the back end cannot emit.
use vstd::prelude::*;
use crate::checker::typed::{
    TypedDeclTarget, TypedExp, TypedForInKind, TypedLValue, TypedMultiValues, TypedStat,
    TypedThen,
};
use crate::codegen::exp::{
    emit_delimited_exp, emit_exp, emit_place_mut, emit_slot_value, emit_slots, spec_delimited,
    spec_emit_exp, spec_place_mut, spec_slot_value, spec_slots, with_prefix, wrap, EmitCtx, EmitModel,
};
use crate::codegen::names::{
    alias_opcional, forin_pattern, indent, indent_text, opt_view, rust_type_name, spec_indent,
    spec_rust_type_name, spec_valor_com_buffer_proprio, valor_com_buffer_proprio,
};
use crate::codegen::scan::{
    assigns_to_name, narrowed_base_type, reads_name, referenced_names, spec_assigns,
    spec_narrowed_base, spec_refs_stat, views,
};
use crate::text::{cat, copy_string, decimal, usize_to_string};
use crate::types::{models, Type, TypeModel};

verus! {

broadcast use vstd::std_specs::vec::axiom_vec_decreases_to_view;

/// One more level of indentation (the count stops at the largest `usize`).
pub open spec fn next_depth(d: usize) -> usize {
    d.saturating_add(1)
}

/// The indentation of level `d`.
pub open spec fn ind(d: usize) -> Seq<char> {
    spec_indent(d as nat)
}

/// `let` or `let mut`, followed by a space.
pub open spec fn spec_let(mutable: bool) -> Seq<char> {
    if mutable { "let mut "@ } else { "let "@ }
}

/// Name of the `i`-th temporary of a multiple declaration or assignment.
pub open spec fn spec_multi_name(i: nat) -> Seq<char> {
    "titan_multi_"@ + decimal(i)
}

/// The first `n` temporaries, joined by `", "`.
pub open spec fn spec_multi_names(n: nat) -> Seq<char>
    decreases n,
{
    if n == 0 {
        Seq::empty()
    } else if n == 1 {
        spec_multi_name(0)
    } else {
        spec_multi_names((n - 1) as nat) + ", "@ + spec_multi_name((n - 1) as nat)
    }
}

/// One `let titan_multi_i = value;` per expression of a list right-hand
/// side, each value stored as a slot of the type in `slots`.
pub open spec fn spec_multi_list(c: EmitModel, exps: Seq<TypedExp>, slots: Seq<TypeModel>, d: usize) -> Option<Seq<char>>
    decreases exps.len(),
{
    if exps.len() == 0 {
        Some(Seq::empty())
    } else {
        let i = (exps.len() - 1) as nat;
        match spec_multi_list(c, exps.drop_last(), slots, d) {
            Some(front) => if i < slots.len() {
                match spec_slot_value(c, slots[i as int], exps.last()) {
                    Some(v) => Some(front + ind(d) + "let "@ + spec_multi_name(i) + " = "@ + v + ";\n"@),
                    None => None,
                }
            } else {
                None
            },
            None => None,
        }
    }
}

/// The whole right-hand side of a multiple declaration or assignment,
/// evaluated into temporaries before any target is written, and how many
/// temporaries there are.
pub open spec fn spec_multi_values(
    c: EmitModel,
    values: TypedMultiValues,
    slots: Seq<TypeModel>,
    alvos: nat,
    d: usize,
) -> Option<(Seq<char>, nat)> {
    match values {
        TypedMultiValues::Call(call) => match spec_delimited(c, call) {
            Some(x) => Some((ind(d) + "let ("@ + spec_multi_names(alvos) + ") = "@ + x + ";\n"@, alvos)),
            None => None,
        },
        TypedMultiValues::List(exps) => match spec_multi_list(c, exps@, slots, d) {
            Some(t) => Some((t, exps@.len())),
            None => None,
        },
    }
}

/// Types of the targets of a multiple declaration.
pub open spec fn decl_slots(ts: Seq<TypedDeclTarget>) -> Seq<TypeModel> {
    Seq::new(ts.len(), |i: int| ts[i].ty.model())
}

/// Slot types of a multiple assignment: those of the values themselves.
pub open spec fn assign_slots(v: TypedMultiValues) -> Seq<TypeModel> {
    match v {
        TypedMultiValues::List(es) => Seq::new(es@.len(), |i: int| es@[i].ty.model()),
        TypedMultiValues::Call(_) => Seq::empty(),
    }
}

/// One `let` per declared target that has a temporary.
pub open spec fn spec_decl_targets(ts: Seq<TypedDeclTarget>, count: nat, d: usize) -> Option<Seq<char>>
    decreases ts.len(),
{
    if ts.len() == 0 {
        Some(Seq::empty())
    } else {
        let i = (ts.len() - 1) as nat;
        match spec_decl_targets(ts.drop_last(), count, d) {
            Some(front) => if i < count {
                match spec_rust_type_name(ts.last().ty.model()) {
                    Some(t) => Some(
                        front + ind(d) + spec_let(ts.last().mutable) + ts.last().name@ + ": "@ + t
                            + " = "@ + spec_multi_name(i) + ";\n"@,
                    ),
                    None => None,
                }
            } else {
                Some(front)
            },
            None => None,
        }
    }
}

/// Writes `valor`, already emitted, into the place `t`: names directly,
/// elements through the run-time (index and value evaluated first), fields
/// through a `&mut` to the record.
pub open spec fn spec_assign_to_lvalue(c: EmitModel, t: TypedLValue, valor: Seq<char>, d: usize) -> Option<Seq<char>> {
    match t {
        TypedLValue::Name(n) => Some(ind(d) + n@ + " = "@ + valor + ";\n"@),
        TypedLValue::Index { base, index } => match base.ty {
            Type::Array { .. } => match (spec_delimited(c, *index), spec_place_mut(c, *base)) {
                (Some(i), Some(b)) => Some(
                    ind(d) + "let titan_idx = "@ + i + ";\n"@ + ind(d) + "let titan_val = "@ + valor
                        + ";\n"@ + ind(d) + "titan_runtime::array_set("@ + b
                        + ", titan_idx, titan_val);\n"@,
                ),
                _ => None,
            },
            Type::Dict { .. } => match (
                spec_slot_value(c, index.ty.model(), *index),
                spec_place_mut(c, *base),
            ) {
                (Some(k), Some(b)) => Some(
                    ind(d) + "let titan_key = "@ + k + ";\n"@ + ind(d) + "let titan_val = "@ + valor
                        + ";\n"@ + ind(d) + "titan_runtime::map_set("@ + b
                        + ", titan_key, titan_val);\n"@,
                ),
                _ => None,
            },
            _ => None,
        },
        TypedLValue::Field { base, name } => match spec_place_mut(c, *base) {
            Some(b) => Some(ind(d) + "("@ + b + ")."@ + name@ + " = "@ + valor + ";\n"@),
            None => None,
        },
    }
}

/// Each target of a multiple assignment written from its temporary.
pub open spec fn spec_assign_targets(c: EmitModel, ts: Seq<TypedLValue>, count: nat, d: usize) -> Option<Seq<char>>
    decreases ts.len(),
{
    if ts.len() == 0 {
        Some(Seq::empty())
    } else {
        let i = (ts.len() - 1) as nat;
        match spec_assign_targets(c, ts.drop_last(), count, d) {
            Some(front) => if i < count {
                with_prefix(front, spec_assign_to_lvalue(c, ts.last(), spec_multi_name(i), d))
            } else {
                Some(front)
            },
            None => None,
        }
    }
}

/// `local a, b = ...`: the right-hand side into temporaries, then one `let`
/// per target.
pub open spec fn spec_decl_multi(c: EmitModel, targets: Seq<TypedDeclTarget>, values: TypedMultiValues, d: usize) -> Option<Seq<char>> {
    match spec_multi_values(c, values, decl_slots(targets), targets.len(), d) {
        Some((pre, count)) => with_prefix(pre, spec_decl_targets(targets, count, d)),
        None => None,
    }
}

/// `a, b = ...`: the whole right-hand side into temporaries, then each
/// target written from its temporary, so that `a, b = b, a` swaps.
pub open spec fn spec_assign_multi(c: EmitModel, targets: Seq<TypedLValue>, values: TypedMultiValues, d: usize) -> Option<Seq<char>> {
    match spec_multi_values(c, values, assign_slots(values), targets.len(), d) {
        Some((pre, count)) => with_prefix(pre, spec_assign_targets(c, targets, count, d)),
        None => None,
    }
}

/// `repeat body until cond`: a `loop` whose last statement breaks out when
/// the condition holds.
pub open spec fn spec_repeat_text(d: usize, body: Seq<char>, cond: Seq<char>) -> Seq<char> {
    let d1 = next_depth(d);
    ind(d) + "loop {\n"@ + body + ind(d1) + "if "@ + cond + " {\n"@ + ind(next_depth(d1))
        + "break;\n"@ + ind(d1) + "}\n"@ + ind(d) + "}\n"@
}

/// Head of a numeric `for`: the control variable and the loop's bound,
/// step and direction, then a `loop` that increments at the top (skipped
/// the first time) and tests the bound in the loop's direction, so that
/// `continue` also increments.
pub open spec fn spec_for_head(
    d: usize,
    name: Seq<char>,
    t: Seq<char>,
    start: Seq<char>,
    finish: Seq<char>,
    inc: Seq<char>,
) -> Seq<char> {
    let i1 = ind(next_depth(d));
    let i2 = ind(next_depth(next_depth(d)));
    let i3 = ind(next_depth(next_depth(next_depth(d))));
    ind(d) + "{\n"@ + i1 + "let mut "@ + name + ": "@ + t + " = "@ + start + ";\n"@ + i1
        + "let titan_for_finish: "@ + t + " = "@ + finish + ";\n"@ + i1 + "let titan_for_inc: "@ + t
        + " = "@ + inc + ";\n"@ + i1 + "let titan_for_asc: bool = titan_for_inc > 0 as "@ + t
        + ";\n"@ + i1 + "let mut titan_for_primeira: bool = true;\n"@ + i1 + "loop {\n"@ + i2
        + "if titan_for_primeira {\n"@ + i3 + "titan_for_primeira = false;\n"@ + i2
        + "} else {\n"@ + i3 + name + " += titan_for_inc;\n"@ + i2 + "}\n"@ + i2
        + "if !((titan_for_asc && "@ + name + " <= titan_for_finish)\n"@ + i3
        + "|| (!titan_for_asc && "@ + name + " >= titan_for_finish)) {\n"@ + i3 + "break;\n"@
        + i2 + "}\n"@
}

/// A numeric `for`: its head, the body inside the `loop`, and the closing
/// braces of the `loop` and of the block that scopes the control variable.
pub open spec fn spec_for_text(
    d: usize,
    name: Seq<char>,
    t: Seq<char>,
    start: Seq<char>,
    finish: Seq<char>,
    inc: Seq<char>,
    body: Seq<char>,
) -> Seq<char> {
    spec_for_head(d, name, t, start, finish, inc) + body + ind(next_depth(d)) + "}\n"@ + ind(d)
        + "}\n"@
}

/// A loop name of a `for`-in is used when the body reads or assigns it.
pub open spec fn spec_forin_used(block: TypedStat, n: Seq<char>) -> bool {
    spec_refs_stat(block).contains(n) || spec_assigns(block, n)
}

/// The pattern that the iterator binds for a loop name.
pub open spec fn spec_forin_pattern(n: Seq<char>, usado: bool) -> Seq<char> {
    if usado { "titan_forin_"@ + n } else { "_"@ }
}

/// The user's loop name bound by value to what the iterator yields by
/// reference: cloned when it owns a buffer, dereferenced otherwise; nothing
/// when the body does not use it.
pub open spec fn spec_forin_binding(
    block: TypedStat,
    name: Seq<char>,
    ty: TypeModel,
    interno: Seq<char>,
    usado: bool,
    d: usize,
) -> Option<Seq<char>> {
    if !usado {
        Some(Seq::empty())
    } else {
        match spec_rust_type_name(ty) {
            Some(t) => Some(
                ind(d) + (if spec_assigns(block, name) { "let mut"@ } else { "let"@ }) + " "@ + name
                    + ": "@ + t + " = "@ + (if spec_valor_com_buffer_proprio(ty) || ty is String {
                    interno + ".clone()"@
                } else {
                    "*"@ + interno
                }) + ";\n"@,
            ),
            None => None,
        }
    }
}

/// The head of a `for`-in over `base` and the bindings of its names.
pub open spec fn spec_forin_head(block: TypedStat, kind: TypedForInKind, base: Seq<char>, d: usize) -> Option<Seq<char>> {
    match kind {
        TypedForInKind::Array { name, elem_ty } => {
            let u = spec_forin_used(block, name@);
            let interno = spec_forin_pattern(name@, u);
            with_prefix(
                "for "@ + interno + " in "@ + base + ".iter() {\n"@,
                spec_forin_binding(block, name@, elem_ty.model(), interno, u, d),
            )
        },
        TypedForInKind::Dict { key_name, key_ty, value_name, value_ty } => {
            let uk = spec_forin_used(block, key_name@);
            let uv = spec_forin_used(block, value_name@);
            let chave = spec_forin_pattern(key_name@, uk);
            let valor = spec_forin_pattern(value_name@, uv);
            match (
                spec_forin_binding(block, key_name@, key_ty.model(), chave, uk, d),
                spec_forin_binding(block, value_name@, value_ty.model(), valor, uv, d),
            ) {
                (Some(bk), Some(bv)) => Some(
                    "for ("@ + chave + ", "@ + valor + ") in "@ + base + ".iter() {\n"@ + bk + bv,
                ),
                _ => None,
            }
        },
    }
}

/// The bindings opened at the top of a narrowing branch for the name
/// `nome`: nothing when the branch neither reads nor assigns it or the
/// condition gives it no optional type; a shadowing `let` of the unwrapped
/// value when the branch only reads it; an alias to the outer optional and
/// a mutable shadow when the branch assigns it.
pub open spec fn spec_narrow_binding(block: TypedStat, cond: TypedExp, nome: Seq<char>, d: usize) -> Option<Seq<char>> {
    let reat = spec_assigns(block, nome);
    if !spec_refs_stat(block).contains(nome) && !reat {
        Some(Seq::empty())
    } else {
        match spec_narrowed_base(cond, nome) {
            None => Some(Seq::empty()),
            Some(base) => match spec_rust_type_name(base) {
                Some(t) => Some(
                    if reat {
                        ind(d) + "let "@ + ("titan_opt_"@ + nome) + ": &mut Option<"@ + t + "> = &mut "@
                            + nome + ";\n"@ + ind(d) + "let mut "@ + nome + ": "@ + t + " = "@
                            + ("titan_opt_"@ + nome) + ".clone().unwrap();\n"@
                    } else {
                        ind(d) + "let "@ + nome + ": "@ + t + " = "@ + nome + ".clone().unwrap();\n"@
                    },
                ),
                None => None,
            },
        }
    }
}

/// The bindings of each narrowed name, in order.
pub open spec fn spec_narrow_prelude(block: TypedStat, cond: TypedExp, ns: Seq<String>, d: usize) -> Option<Seq<char>>
    decreases ns.len(),
{
    if ns.len() == 0 {
        Some(Seq::empty())
    } else {
        match (
            spec_narrow_prelude(block, cond, ns.drop_last(), d),
            spec_narrow_binding(block, cond, ns.last()@, d),
        ) {
            (Some(f), Some(x)) => Some(f + x),
            _ => None,
        }
    }
}

/// Write-back of an assigned narrowed name into the outer optional.
pub open spec fn spec_writeback_item(block: TypedStat, cond: TypedExp, nome: Seq<char>, d: usize) -> Seq<char> {
    if spec_assigns(block, nome) && spec_narrowed_base(cond, nome) is Some {
        ind(d) + "*"@ + ("titan_opt_"@ + nome) + " = Some("@ + nome + ");\n"@
    } else {
        Seq::empty()
    }
}

/// The write-backs at the end of a narrowing branch, innermost alias first
/// (the reverse of the opening order).
pub open spec fn spec_writeback(block: TypedStat, cond: TypedExp, ns: Seq<String>, d: usize) -> Seq<char>
    decreases ns.len(),
{
    if ns.len() == 0 {
        Seq::empty()
    } else {
        spec_writeback(block, cond, ns.drop_first(), d) + spec_writeback_item(block, cond, ns[0]@, d)
    }
}

/// A statement (see the module comment).
pub open spec fn spec_stat(c: EmitModel, s: TypedStat, d: usize) -> Option<Seq<char>>
    decreases s, 1int,
{
    match s {
        TypedStat::Block { stats, .. } => wrap(ind(d) + "{\n"@, spec_stats(c, stats@, next_depth(d)), ind(d) + "}\n"@),
        TypedStat::Decl { name, ty, value, mutable, .. } => match (
            spec_rust_type_name(ty.model()),
            spec_slot_value(c, ty.model(), value),
        ) {
            (Some(t), Some(v)) => Some(ind(d) + spec_let(mutable) + name@ + ": "@ + t + " = "@ + v + ";\n"@),
            _ => None,
        },
        TypedStat::DeclMulti { targets, values, .. } => spec_decl_multi(c, targets@, values, d),
        TypedStat::AssignMulti { targets, values, .. } => spec_assign_multi(c, targets@, values, d),
        TypedStat::Call { call, .. } => wrap(ind(d), spec_emit_exp(c, call), ";\n"@),
        TypedStat::Return { exps, .. } => if exps@.len() == 0 {
            Some(ind(d) + "return;\n"@)
        } else if exps@.len() == 1 {
            wrap(ind(d) + "return "@, spec_slot_value(c, exps@[0].ty.model(), exps@[0]), ";\n"@)
        } else {
            wrap(ind(d) + "return ("@, spec_slots(c, exps@), ");\n"@)
        },
        TypedStat::If { thens, elsestat, .. } => match (
            spec_thens(c, thens@, d),
            match elsestat {
                Some(e) => wrap(" else {\n"@, spec_block_stats(c, *e, next_depth(d)), ind(d) + "}"@),
                None => Some(Seq::empty()),
            },
        ) {
            (Some(t), Some(e)) => Some(ind(d) + t + e + "\n"@),
            _ => None,
        },
        TypedStat::While { condition, block, .. } => match (
            spec_delimited(c, condition),
            spec_block_stats(c, *block, next_depth(d)),
        ) {
            (Some(x), Some(b)) => Some(ind(d) + "while "@ + x + " {\n"@ + b + ind(d) + "}\n"@),
            _ => None,
        },
        TypedStat::Repeat { block, condition, .. } => match (
            spec_block_stats(c, *block, next_depth(d)),
            spec_delimited(c, condition),
        ) {
            (Some(b), Some(x)) => Some(spec_repeat_text(d, b, x)),
            _ => None,
        },
        TypedStat::Assign { target, value, .. } => match spec_slot_value(c, value.ty.model(), value) {
            Some(v) => spec_assign_to_lvalue(c, target, v, d),
            None => None,
        },
        TypedStat::For { name, ty, start, finish, inc, block, .. } => match (
            spec_rust_type_name(ty.model()),
            spec_delimited(c, start),
            spec_delimited(c, finish),
            spec_delimited(c, *inc),
            spec_block_stats(c, *block, next_depth(next_depth(d))),
        ) {
            (Some(t), Some(st), Some(fi), Some(ic), Some(b)) => Some(
                spec_for_text(d, name@, t, st, fi, ic, b),
            ),
            _ => None,
        },
        TypedStat::ForIn { kind, container, block, .. } => match (
            spec_emit_exp(c, container),
            spec_block_stats(c, *block, next_depth(d)),
        ) {
            (Some(base), Some(body)) => match spec_forin_head(*block, kind, base, next_depth(d)) {
                Some(head) => Some(ind(d) + head + body + ind(d) + "}\n"@),
                None => None,
            },
            _ => None,
        },
        TypedStat::Break { .. } => Some(ind(d) + "break;\n"@),
        TypedStat::Continue { .. } => Some(ind(d) + "continue;\n"@),
    }
}

/// The statements of a block, without braces (a statement that is not a
/// block is emitted alone).
pub open spec fn spec_block_stats(c: EmitModel, s: TypedStat, d: usize) -> Option<Seq<char>>
    decreases s, 2int,
{
    match s {
        TypedStat::Block { stats, .. } => spec_stats(c, stats@, d),
        _ => spec_stat(c, s, d),
    }
}

/// A sequence of statements.
pub open spec fn spec_stats(c: EmitModel, ss: Seq<TypedStat>, d: usize) -> Option<Seq<char>>
    decreases ss, 0int,
{
    if ss.len() == 0 {
        Some(Seq::empty())
    } else {
        match (spec_stats(c, ss.drop_last(), d), spec_stat(c, ss.last(), d)) {
            (Some(f), Some(x)) => Some(f + x),
            _ => None,
        }
    }
}

/// The `if` / `else if` branches, from the keyword of the first to the
/// closing brace of the last.
pub open spec fn spec_thens(c: EmitModel, ts: Seq<TypedThen>, d: usize) -> Option<Seq<char>>
    decreases ts, 0int,
{
    if ts.len() == 0 {
        Some(Seq::empty())
    } else {
        match (
            spec_thens(c, ts.drop_last(), d),
            spec_delimited(c, ts.last().condition),
            spec_narrowed_block(c, ts.last(), next_depth(d)),
        ) {
            (Some(f), Some(x), Some(b)) => Some(
                f + (if ts.len() == 1 { "if "@ } else { " else if "@ }) + x + " {\n"@ + b + ind(d)
                    + "}"@,
            ),
            _ => None,
        }
    }
}

/// The body of a `then` branch: when its condition narrowed optional names,
/// their bindings come first and the write-backs last.
pub open spec fn spec_narrowed_block(c: EmitModel, t: TypedThen, d: usize) -> Option<Seq<char>>
    decreases t, 3int,
{
    if t.narrowed@.len() == 0 {
        spec_block_stats(c, t.block, d)
    } else {
        match (
            spec_narrow_prelude(t.block, t.condition, t.narrowed@, d),
            spec_block_stats(c, t.block, d),
        ) {
            (Some(p), Some(b)) => Some(p + b + spec_writeback(t.block, t.condition, t.narrowed@, d)),
            _ => None,
        }
    }
}

/// A multiple assignment evaluates its whole right-hand side before it
/// writes any target: the emitted text is the `let` of every temporary,
/// then the writes, each from its own temporary (so `a, b = b, a` swaps).
pub proof fn lemma_assign_multi_reads_before_writes(
    c: EmitModel,
    targets: Seq<TypedLValue>,
    values: TypedMultiValues,
    d: usize,
)
    requires
        values is List,
        spec_assign_multi(c, targets, values, d) is Some,
    ensures
        match values {
            TypedMultiValues::List(es) => {
                &&& spec_multi_list(c, es@, assign_slots(values), d) is Some
                &&& spec_assign_targets(c, targets, es@.len(), d) is Some
                &&& spec_assign_multi(c, targets, values, d)->0 == spec_multi_list(
                    c,
                    es@,
                    assign_slots(values),
                    d,
                )->0 + spec_assign_targets(c, targets, es@.len(), d)->0
            },
            _ => false,
        },
{
}

// ---------------------------------------------------------------------
// Lemmas: a list with an absent prefix is absent.
// ---------------------------------------------------------------------

proof fn lemma_stats_none(c: EmitModel, ss: Seq<TypedStat>, d: usize, j: int)
    requires
        0 <= j <= ss.len(),
        spec_stats(c, ss.subrange(0, j), d) is None,
    ensures
        spec_stats(c, ss, d) is None,
    decreases ss.len(),
{
    if j == ss.len() {
        assert(ss.subrange(0, j) =~= ss);
    } else {
        assert(ss.drop_last().subrange(0, j) =~= ss.subrange(0, j));
        lemma_stats_none(c, ss.drop_last(), d, j);
    }
}

proof fn lemma_thens_none(c: EmitModel, ts: Seq<TypedThen>, d: usize, j: int)
    requires
        0 <= j <= ts.len(),
        spec_thens(c, ts.subrange(0, j), d) is None,
    ensures
        spec_thens(c, ts, d) is None,
    decreases ts.len(),
{
    if j == ts.len() {
        assert(ts.subrange(0, j) =~= ts);
    } else {
        assert(ts.drop_last().subrange(0, j) =~= ts.subrange(0, j));
        lemma_thens_none(c, ts.drop_last(), d, j);
    }
}

proof fn lemma_multi_list_none(c: EmitModel, es: Seq<TypedExp>, slots: Seq<TypeModel>, d: usize, j: int)
    requires
        0 <= j <= es.len(),
        spec_multi_list(c, es.subrange(0, j), slots, d) is None,
    ensures
        spec_multi_list(c, es, slots, d) is None,
    decreases es.len(),
{
    if j == es.len() {
        assert(es.subrange(0, j) =~= es);
    } else {
        assert(es.drop_last().subrange(0, j) =~= es.subrange(0, j));
        lemma_multi_list_none(c, es.drop_last(), slots, d, j);
    }
}

proof fn lemma_decl_targets_none(ts: Seq<TypedDeclTarget>, count: nat, d: usize, j: int)
    requires
        0 <= j <= ts.len(),
        spec_decl_targets(ts.subrange(0, j), count, d) is None,
    ensures
        spec_decl_targets(ts, count, d) is None,
    decreases ts.len(),
{
    if j == ts.len() {
        assert(ts.subrange(0, j) =~= ts);
    } else {
        assert(ts.drop_last().subrange(0, j) =~= ts.subrange(0, j));
        lemma_decl_targets_none(ts.drop_last(), count, d, j);
    }
}

proof fn lemma_assign_targets_none(c: EmitModel, ts: Seq<TypedLValue>, count: nat, d: usize, j: int)
    requires
        0 <= j <= ts.len(),
        spec_assign_targets(c, ts.subrange(0, j), count, d) is None,
    ensures
        spec_assign_targets(c, ts, count, d) is None,
    decreases ts.len(),
{
    if j == ts.len() {
        assert(ts.subrange(0, j) =~= ts);
    } else {
        assert(ts.drop_last().subrange(0, j) =~= ts.subrange(0, j));
        lemma_assign_targets_none(c, ts.drop_last(), count, d, j);
    }
}

proof fn lemma_prelude_none(block: TypedStat, cond: TypedExp, ns: Seq<String>, d: usize, j: int)
    requires
        0 <= j <= ns.len(),
        spec_narrow_prelude(block, cond, ns.subrange(0, j), d) is None,
    ensures
        spec_narrow_prelude(block, cond, ns, d) is None,
    decreases ns.len(),
{
    if j == ns.len() {
        assert(ns.subrange(0, j) =~= ns);
    } else {
        assert(ns.drop_last().subrange(0, j) =~= ns.subrange(0, j));
        lemma_prelude_none(block, cond, ns.drop_last(), d, j);
    }
}

// ---------------------------------------------------------------------
// Emission.
// ---------------------------------------------------------------------

/// Writes `valor`, already emitted, into the place `target` (see
/// `spec_assign_to_lvalue`).
pub fn emit_assign_to_lvalue(target: &TypedLValue, valor: &str, depth: usize, ctx: &EmitCtx) -> (r: Option<String>)
    ensures
        opt_view(r) == spec_assign_to_lvalue(ctx@, *target, valor@, depth),
{
    match target {
        TypedLValue::Name(name) => {
            let mut s = indent_text(depth);
            s.append(name.as_str());
            s.append(" = ");
            s.append(valor);
            s.append(";\n");
            Some(s)
        },
        TypedLValue::Index { base, index } => match &base.ty {
            Type::Array { .. } => {
                let i = emit_delimited_exp(&**index, ctx)?;
                let b = emit_place_mut(&**base, ctx)?;
                let mut s = indent_text(depth);
                s.append("let titan_idx = ");
                s.append(i.as_str());
                s.append(";\n");
                indent(&mut s, depth);
                s.append("let titan_val = ");
                s.append(valor);
                s.append(";\n");
                indent(&mut s, depth);
                s.append("titan_runtime::array_set(");
                s.append(b.as_str());
                s.append(", titan_idx, titan_val);\n");
                Some(s)
            },
            Type::Dict { .. } => {
                let k = emit_slot_value(&index.ty, &**index, ctx)?;
                let b = emit_place_mut(&**base, ctx)?;
                let mut s = indent_text(depth);
                s.append("let titan_key = ");
                s.append(k.as_str());
                s.append(";\n");
                indent(&mut s, depth);
                s.append("let titan_val = ");
                s.append(valor);
                s.append(";\n");
                indent(&mut s, depth);
                s.append("titan_runtime::map_set(");
                s.append(b.as_str());
                s.append(", titan_key, titan_val);\n");
                Some(s)
            },
            _ => None,
        },
        TypedLValue::Field { base, name } => {
            let b = emit_place_mut(&**base, ctx)?;
            let mut s = indent_text(depth);
            s.append("(");
            s.append(b.as_str());
            s.append(").");
            s.append(name.as_str());
            s.append(" = ");
            s.append(valor);
            s.append(";\n");
            Some(s)
        },
    }
}

/// Types of the targets of a multiple declaration.
fn decl_slot_types(targets: &Vec<TypedDeclTarget>) -> (r: Vec<Type>)
    ensures
        models(r@) == decl_slots(targets@),
{
    let mut r: Vec<Type> = Vec::new();
    let mut i: usize = 0;
    while i < targets.len()
        invariant
            i <= targets@.len(),
            r@.len() == i,
            forall|j: int| 0 <= j < i ==> #[trigger] r@[j].model() == targets@[j].ty.model(),
        decreases targets@.len() - i,
    {
        r.push(targets[i].ty.copy());
        i += 1;
    }
    assert forall|j: int| 0 <= j < r@.len() implies models(r@)[j] == decl_slots(targets@)[j] by {
        assert(r@[j].model() == targets@[j].ty.model());
    }
    assert(models(r@) =~= decl_slots(targets@));
    r
}

/// Slot types of a multiple assignment.
fn assign_slot_types(values: &TypedMultiValues) -> (r: Vec<Type>)
    ensures
        models(r@) == assign_slots(*values),
{
    let mut r: Vec<Type> = Vec::new();
    match values {
        TypedMultiValues::List(exps) => {
            let mut i: usize = 0;
            while i < exps.len()
                invariant
                    i <= exps@.len(),
                    r@.len() == i,
                    forall|j: int| 0 <= j < i ==> #[trigger] r@[j].model() == exps@[j].ty.model(),
                decreases exps@.len() - i,
            {
                r.push(exps[i].ty.copy());
                i += 1;
            }
            assert forall|j: int| 0 <= j < r@.len() implies models(r@)[j] == assign_slots(*values)[j] by {
                assert(r@[j].model() == exps@[j].ty.model());
            }
        },
        TypedMultiValues::Call(_) => {},
    }
    assert(models(r@) =~= assign_slots(*values));
    r
}

/// Name of the `i`-th temporary.
fn multi_name(i: usize) -> (r: String)
    ensures
        r@ == spec_multi_name(i as nat),
{
    cat("titan_multi_", usize_to_string(i).as_str())
}

/// Emits the right-hand side of a multiple declaration or assignment into
/// temporaries; gives back the text and the temporaries' names (see
/// `spec_multi_values`).
#[verifier::loop_isolation(false)]
pub fn emit_multi_values(
    values: &TypedMultiValues,
    slots: &Vec<Type>,
    alvos: usize,
    depth: usize,
    ctx: &EmitCtx,
) -> (r: Option<(String, Vec<String>)>)
    ensures
        match r {
            Some((text, ns)) => spec_multi_values(ctx@, *values, models(slots@), alvos as nat, depth) == Some(
                (text@, ns@.len()),
            ) && forall|i: int| 0 <= i < ns@.len() ==> #[trigger] ns@[i]@ == spec_multi_name(i as nat),
            None => spec_multi_values(ctx@, *values, models(slots@), alvos as nat, depth) is None,
        },
{
    match values {
        TypedMultiValues::Call(call) => {
            let x = emit_delimited_exp(call, ctx)?;
            let mut nomes: Vec<String> = Vec::new();
            let mut joined = String::new();
            let mut i: usize = 0;
            while i < alvos
                invariant
                    i <= alvos,
                    nomes@.len() == i,
                    forall|j: int| 0 <= j < i ==> #[trigger] nomes@[j]@ == spec_multi_name(j as nat),
                    joined@ == spec_multi_names(i as nat),
                decreases alvos - i,
            {
                let nome = multi_name(i);
                if i > 0 {
                    joined.append(", ");
                    joined.append(nome.as_str());
                } else {
                    joined = copy_string(&nome);
                }
                nomes.push(nome);
                i += 1;
            }
            let mut s = indent_text(depth);
            s.append("let (");
            s.append(joined.as_str());
            s.append(") = ");
            s.append(x.as_str());
            s.append(";\n");
            Some((s, nomes))
        },
        TypedMultiValues::List(exps) => {
            let ghost sm = models(slots@);
            let mut nomes: Vec<String> = Vec::new();
            let mut out = String::new();
            let mut i: usize = 0;
            while i < exps.len()
                invariant
                    i <= exps@.len(),
                    sm == models(slots@),
                    sm.len() == slots@.len(),
                    nomes@.len() == i,
                    forall|j: int| 0 <= j < i ==> #[trigger] nomes@[j]@ == spec_multi_name(j as nat),
                    spec_multi_list(ctx@, exps@.subrange(0, i as int), sm, depth) == Some(out@),
                decreases exps@.len() - i,
            {
                proof {
                    assert(exps@.subrange(0, i + 1).drop_last() =~= exps@.subrange(0, i as int));
                    assert(exps@.subrange(0, i + 1).last() == exps@[i as int]);
                }
                if i >= slots.len() {
                    proof { lemma_multi_list_none(ctx@, exps@, sm, depth, i + 1); }
                    return None;
                }
                proof { assert(sm[i as int] == slots@[i as int].model()); }
                let v = match emit_slot_value(&slots[i], &exps[i], ctx) {
                    Some(v) => v,
                    None => {
                        proof { lemma_multi_list_none(ctx@, exps@, sm, depth, i + 1); }
                        return None;
                    },
                };
                let nome = multi_name(i);
                indent(&mut out, depth);
                out.append("let ");
                out.append(nome.as_str());
                out.append(" = ");
                out.append(v.as_str());
                out.append(";\n");
                nomes.push(nome);
                i += 1;
            }
            proof { assert(exps@.subrange(0, exps@.len() as int) =~= exps@); }
            Some((out, nomes))
        },
    }
}

/// The head of a numeric `for` (see `spec_for_head`).
fn for_head_text(depth: usize, name: &str, t: &str, st: &str, fi: &str, ic: &str) -> (s: String)
    ensures
        s@ == spec_for_head(depth, name@, t@, st@, fi@, ic@),
{
    let d1 = depth.saturating_add(1);
    let d2 = d1.saturating_add(1);
    let d3 = d2.saturating_add(1);
    let mut s = indent_text(depth);
    s.append("{\n");
    indent(&mut s, d1);
    s.append("let mut ");
    s.append(name);
    s.append(": ");
    s.append(t);
    s.append(" = ");
    s.append(st);
    s.append(";\n");
    indent(&mut s, d1);
    s.append("let titan_for_finish: ");
    s.append(t);
    s.append(" = ");
    s.append(fi);
    s.append(";\n");
    indent(&mut s, d1);
    s.append("let titan_for_inc: ");
    s.append(t);
    s.append(" = ");
    s.append(ic);
    s.append(";\n");
    indent(&mut s, d1);
    s.append("let titan_for_asc: bool = titan_for_inc > 0 as ");
    s.append(t);
    s.append(";\n");
    indent(&mut s, d1);
    s.append("let mut titan_for_primeira: bool = true;\n");
    indent(&mut s, d1);
    s.append("loop {\n");
    indent(&mut s, d2);
    s.append("if titan_for_primeira {\n");
    indent(&mut s, d3);
    s.append("titan_for_primeira = false;\n");
    indent(&mut s, d2);
    s.append("} else {\n");
    indent(&mut s, d3);
    s.append(name);
    s.append(" += titan_for_inc;\n");
    indent(&mut s, d2);
    s.append("}\n");
    indent(&mut s, d2);
    s.append("if !((titan_for_asc && ");
    s.append(name);
    s.append(" <= titan_for_finish)\n");
    indent(&mut s, d3);
    s.append("|| (!titan_for_asc && ");
    s.append(name);
    s.append(" >= titan_for_finish)) {\n");
    indent(&mut s, d3);
    s.append("break;\n");
    indent(&mut s, d2);
    s.append("}\n");
    s
}

/// A statement (see `spec_stat`).
pub fn emit_stat(stat: &TypedStat, depth: usize, ctx: &EmitCtx) -> (r: Option<String>)
    ensures
        opt_view(r) == spec_stat(ctx@, *stat, depth),
    decreases stat, 1int,
{
    let d1 = depth.saturating_add(1);
    match stat {
        TypedStat::Block { stats, .. } => {
            let body = emit_stats(stats, d1, ctx)?;
            let mut s = indent_text(depth);
            s.append("{\n");
            s.append(body.as_str());
            s.append(cat(indent_text(depth).as_str(), "}\n").as_str());
            Some(s)
        },
        TypedStat::Decl { name, ty, value, mutable, .. } => {
            let t = rust_type_name(ty)?;
            let v = emit_slot_value(ty, value, ctx)?;
            let kw = if *mutable { "let mut " } else { "let " };
            assert(kw@ == spec_let(*mutable));
            let mut s = indent_text(depth);
            s.append(kw);
            s.append(name.as_str());
            s.append(": ");
            s.append(t.as_str());
            s.append(" = ");
            s.append(v.as_str());
            s.append(";\n");
            Some(s)
        },
        TypedStat::DeclMulti { targets, values, .. } => emit_decl_multi(targets, values, depth, ctx),
        TypedStat::AssignMulti { targets, values, .. } => emit_assign_multi(targets, values, depth, ctx),
        TypedStat::Call { call, .. } => {
            let x = emit_exp(call, ctx)?;
            let mut s = indent_text(depth);
            s.append(x.as_str());
            s.append(";\n");
            Some(s)
        },
        TypedStat::Return { exps, .. } => {
            let mut s = indent_text(depth);
            if exps.len() == 0 {
                s.append("return;\n");
            } else if exps.len() == 1 {
                let v = emit_slot_value(&exps[0].ty, &exps[0], ctx)?;
                s.append("return ");
                s.append(v.as_str());
                s.append(";\n");
            } else {
                let vs = emit_slots(exps, ctx)?;
                s.append("return (");
                s.append(vs.as_str());
                s.append(");\n");
            }
            Some(s)
        },
        TypedStat::If { .. } => emit_if(stat, depth, ctx),
        TypedStat::While { condition, block, .. } => {
            let x = emit_delimited_exp(condition, ctx)?;
            let b = emit_block_stats(&**block, d1, ctx)?;
            let mut s = indent_text(depth);
            s.append("while ");
            s.append(x.as_str());
            s.append(" {\n");
            s.append(b.as_str());
            indent(&mut s, depth);
            s.append("}\n");
            Some(s)
        },
        TypedStat::Repeat { block, condition, .. } => {
            let b = emit_block_stats(&**block, d1, ctx)?;
            let x = emit_delimited_exp(condition, ctx)?;
            let d2 = d1.saturating_add(1);
            let mut s = indent_text(depth);
            s.append("loop {\n");
            s.append(b.as_str());
            indent(&mut s, d1);
            s.append("if ");
            s.append(x.as_str());
            s.append(" {\n");
            indent(&mut s, d2);
            s.append("break;\n");
            indent(&mut s, d1);
            s.append("}\n");
            indent(&mut s, depth);
            s.append("}\n");
            Some(s)
        },
        TypedStat::Assign { target, value, .. } => {
            let v = emit_slot_value(&value.ty, value, ctx)?;
            emit_assign_to_lvalue(target, v.as_str(), depth, ctx)
        },
        TypedStat::For { name, ty, start, finish, inc, block, .. } => {
            let t = rust_type_name(ty)?;
            let st = emit_delimited_exp(start, ctx)?;
            let fi = emit_delimited_exp(finish, ctx)?;
            let ic = emit_delimited_exp(&**inc, ctx)?;
            let d2 = d1.saturating_add(1);
            let b = emit_block_stats(&**block, d2, ctx)?;
            let mut s = for_head_text(depth, name.as_str(), t.as_str(), st.as_str(), fi.as_str(), ic.as_str());
            s.append(b.as_str());
            indent(&mut s, d1);
            s.append("}\n");
            indent(&mut s, depth);
            s.append("}\n");
            Some(s)
        },
        TypedStat::ForIn { .. } => emit_forin(stat, depth, ctx),
        TypedStat::Break { .. } => {
            let mut s = indent_text(depth);
            s.append("break;\n");
            Some(s)
        },
        TypedStat::Continue { .. } => {
            let mut s = indent_text(depth);
            s.append("continue;\n");
            Some(s)
        },
    }
}

/// `local a, b = ...` (see `spec_decl_multi`).
#[verifier::loop_isolation(false)]
fn emit_decl_multi(targets: &Vec<TypedDeclTarget>, values: &TypedMultiValues, depth: usize, ctx: &EmitCtx) -> (r: Option<String>)
    ensures
        opt_view(r) == spec_decl_multi(ctx@, targets@, *values, depth),
{
    let slots = decl_slot_types(targets);
    let (pre, temporarios) = emit_multi_values(values, &slots, targets.len(), depth, ctx)?;
    let ghost count = temporarios@.len() as nat;
    let mut out = String::new();
    let mut i: usize = 0;
    while i < targets.len()
        invariant
            i <= targets@.len(),
            count == temporarios@.len(),
            forall|j: int| 0 <= j < count ==> #[trigger] temporarios@[j]@ == spec_multi_name(j as nat),
            spec_decl_targets(targets@.subrange(0, i as int), count, depth) == Some(out@),
        decreases targets@.len() - i,
    {
        proof {
            assert(targets@.subrange(0, i + 1).drop_last() =~= targets@.subrange(0, i as int));
            assert(targets@.subrange(0, i + 1).last() == targets@[i as int]);
        }
        if i < temporarios.len() {
            let t = match rust_type_name(&targets[i].ty) {
                Some(t) => t,
                None => {
                    proof { lemma_decl_targets_none(targets@, count, depth, i + 1); }
                    return None;
                },
            };
            let kw = if targets[i].mutable { "let mut " } else { "let " };
            assert(kw@ == spec_let(targets@[i as int].mutable));
            indent(&mut out, depth);
            out.append(kw);
            out.append(targets[i].name.as_str());
            out.append(": ");
            out.append(t.as_str());
            out.append(" = ");
            out.append(temporarios[i].as_str());
            out.append(";\n");
        }
        i += 1;
    }
    proof { assert(targets@.subrange(0, targets@.len() as int) =~= targets@); }
    Some(cat(pre.as_str(), out.as_str()))
}

/// `a, b = ...` (see `spec_assign_multi`).
#[verifier::loop_isolation(false)]
fn emit_assign_multi(targets: &Vec<TypedLValue>, values: &TypedMultiValues, depth: usize, ctx: &EmitCtx) -> (r: Option<String>)
    ensures
        opt_view(r) == spec_assign_multi(ctx@, targets@, *values, depth),
{
    let slots = assign_slot_types(values);
    let (pre, temporarios) = emit_multi_values(values, &slots, targets.len(), depth, ctx)?;
    let ghost count = temporarios@.len() as nat;
    let mut out = String::new();
    let mut i: usize = 0;
    while i < targets.len()
        invariant
            i <= targets@.len(),
            count == temporarios@.len(),
            forall|j: int| 0 <= j < count ==> #[trigger] temporarios@[j]@ == spec_multi_name(j as nat),
            spec_assign_targets(ctx@, targets@.subrange(0, i as int), count, depth) == Some(out@),
        decreases targets@.len() - i,
    {
        proof {
            assert(targets@.subrange(0, i + 1).drop_last() =~= targets@.subrange(0, i as int));
            assert(targets@.subrange(0, i + 1).last() == targets@[i as int]);
        }
        if i < temporarios.len() {
            let a = match emit_assign_to_lvalue(&targets[i], temporarios[i].as_str(), depth, ctx) {
                Some(a) => a,
                None => {
                    proof { lemma_assign_targets_none(ctx@, targets@, count, depth, i + 1); }
                    return None;
                },
            };
            out.append(a.as_str());
        }
        i += 1;
    }
    proof { assert(targets@.subrange(0, targets@.len() as int) =~= targets@); }
    Some(cat(pre.as_str(), out.as_str()))
}

/// `if` with its `else if` and `else` branches.
#[verifier::loop_isolation(false)]
fn emit_if(stat: &TypedStat, depth: usize, ctx: &EmitCtx) -> (r: Option<String>)
    requires
        stat is If,
    ensures
        opt_view(r) == spec_stat(ctx@, *stat, depth),
    decreases stat, 0int,
{
    let d1 = depth.saturating_add(1);
    match stat {
        TypedStat::If { thens, elsestat, .. } => {
            let mut t = String::new();
            let mut i: usize = 0;
            while i < thens.len()
                invariant
                    i <= thens@.len(),
                    d1 == next_depth(depth),
                    spec_thens(ctx@, thens@.subrange(0, i as int), depth) == Some(t@),
                decreases thens@.len() - i,
            {
                proof {
                    assert(decreases_to!(thens => thens@[i as int]));
                    assert(thens@.subrange(0, i + 1).drop_last() =~= thens@.subrange(0, i as int));
                    assert(thens@.subrange(0, i + 1).last() == thens@[i as int]);
                }
                let x = match emit_delimited_exp(&thens[i].condition, ctx) {
                    Some(x) => x,
                    None => {
                        proof { lemma_thens_none(ctx@, thens@, depth, i + 1); }
                        return None;
                    },
                };
                let b = match emit_narrowed_block(&thens[i], d1, ctx) {
                    Some(b) => b,
                    None => {
                        proof { lemma_thens_none(ctx@, thens@, depth, i + 1); }
                        return None;
                    },
                };
                let kw = if i == 0 { "if " } else { " else if " };
                t.append(kw);
                t.append(x.as_str());
                t.append(" {\n");
                t.append(b.as_str());
                indent(&mut t, depth);
                t.append("}");
                i += 1;
            }
            proof { assert(thens@.subrange(0, thens@.len() as int) =~= thens@); }
            let e = match elsestat {
                Some(e) => {
                    let b = emit_block_stats(&**e, d1, ctx)?;
                    let mut es = String::from_str(" else {\n");
                    es.append(b.as_str());
                    es.append(cat(indent_text(depth).as_str(), "}").as_str());
                    es
                },
                None => String::new(),
            };
            let mut s = indent_text(depth);
            s.append(t.as_str());
            s.append(e.as_str());
            s.append("\n");
            Some(s)
        },
        _ => None,
    }
}

/// `for`-in over an array or a map: Rust's own `for` over `.iter()`.
fn emit_forin(stat: &TypedStat, depth: usize, ctx: &EmitCtx) -> (r: Option<String>)
    requires
        stat is ForIn,
    ensures
        opt_view(r) == spec_stat(ctx@, *stat, depth),
    decreases stat, 0int,
{
    let d1 = depth.saturating_add(1);
    match stat {
        TypedStat::ForIn { kind, container, block, .. } => {
            let base = emit_exp(container, ctx)?;
            let lidos = referenced_names(&**block);
            let head = match kind {
                TypedForInKind::Array { name, elem_ty } => {
                    let u = reads_name(&lidos, name.as_str()) || assigns_to_name(&**block, name.as_str());
                    let interno = forin_pattern(name.as_str(), u);
                    let bind = emit_forin_binding(name.as_str(), elem_ty, interno.as_str(), &**block, u, d1)?;
                    let mut h = String::from_str("for ");
                    h.append(interno.as_str());
                    h.append(" in ");
                    h.append(base.as_str());
                    h.append(".iter() {\n");
                    h.append(bind.as_str());
                    h
                },
                TypedForInKind::Dict { key_name, key_ty, value_name, value_ty } => {
                    let uk = reads_name(&lidos, key_name.as_str()) || assigns_to_name(&**block, key_name.as_str());
                    let uv = reads_name(&lidos, value_name.as_str()) || assigns_to_name(&**block, value_name.as_str());
                    let chave = forin_pattern(key_name.as_str(), uk);
                    let valor = forin_pattern(value_name.as_str(), uv);
                    let bk = emit_forin_binding(key_name.as_str(), key_ty, chave.as_str(), &**block, uk, d1)?;
                    let bv = emit_forin_binding(value_name.as_str(), value_ty, valor.as_str(), &**block, uv, d1)?;
                    let mut h = String::from_str("for (");
                    h.append(chave.as_str());
                    h.append(", ");
                    h.append(valor.as_str());
                    h.append(") in ");
                    h.append(base.as_str());
                    h.append(".iter() {\n");
                    h.append(bk.as_str());
                    h.append(bv.as_str());
                    h
                },
            };
            let body = emit_block_stats(&**block, d1, ctx)?;
            let mut s = indent_text(depth);
            s.append(head.as_str());
            s.append(body.as_str());
            indent(&mut s, depth);
            s.append("}\n");
            Some(s)
        },
        _ => None,
    }
}

/// Binds a loop name of a `for`-in by value (see `spec_forin_binding`).
pub fn emit_forin_binding(
    name: &str,
    ty: &Type,
    interno: &str,
    block: &TypedStat,
    usado: bool,
    depth: usize,
) -> (r: Option<String>)
    ensures
        opt_view(r) == spec_forin_binding(*block, name@, ty.model(), interno@, usado, depth),
{
    if !usado {
        return Some(String::new());
    }
    let rust_ty = rust_type_name(ty)?;
    let bind = if assigns_to_name(block, name) { "let mut" } else { "let" };
    let value = if valor_com_buffer_proprio(ty) || matches!(ty, Type::String) {
        cat(interno, ".clone()")
    } else {
        cat("*", interno)
    };
    let mut s = indent_text(depth);
    s.append(bind);
    s.append(" ");
    s.append(name);
    s.append(": ");
    s.append(rust_ty.as_str());
    s.append(" = ");
    s.append(value.as_str());
    s.append(";\n");
    Some(s)
}

/// The statements of a block without braces (see `spec_block_stats`).
pub fn emit_block_stats(stat: &TypedStat, depth: usize, ctx: &EmitCtx) -> (r: Option<String>)
    ensures
        opt_view(r) == spec_block_stats(ctx@, *stat, depth),
    decreases stat, 2int,
{
    match stat {
        TypedStat::Block { stats, .. } => emit_stats(stats, depth, ctx),
        _ => emit_stat(stat, depth, ctx),
    }
}

/// A sequence of statements (see `spec_stats`).
#[verifier::loop_isolation(false)]
pub fn emit_stats(stats: &Vec<TypedStat>, depth: usize, ctx: &EmitCtx) -> (r: Option<String>)
    ensures
        opt_view(r) == spec_stats(ctx@, stats@, depth),
    decreases stats, 0int,
{
    let mut out = String::new();
    let mut i: usize = 0;
    while i < stats.len()
        invariant
            i <= stats@.len(),
            spec_stats(ctx@, stats@.subrange(0, i as int), depth) == Some(out@),
        decreases stats@.len() - i,
    {
        proof {
            assert(decreases_to!(stats => stats@[i as int]));
            assert(stats@.subrange(0, i + 1).drop_last() =~= stats@.subrange(0, i as int));
            assert(stats@.subrange(0, i + 1).last() == stats@[i as int]);
        }
        let x = match emit_stat(&stats[i], depth, ctx) {
            Some(x) => x,
            None => {
                proof { lemma_stats_none(ctx@, stats@, depth, i + 1); }
                return None;
            },
        };
        out.append(x.as_str());
        i += 1;
    }
    proof { assert(stats@.subrange(0, stats@.len() as int) =~= stats@); }
    Some(out)
}

/// The bindings of one narrowed name (see `spec_narrow_binding`).
fn narrow_binding(block: &TypedStat, cond: &TypedExp, lidos: &Vec<String>, nome: &str, depth: usize) -> (r: Option<String>)
    requires
        views(lidos@) == spec_refs_stat(*block),
    ensures
        opt_view(r) == spec_narrow_binding(*block, *cond, nome@, depth),
{
    let reat = assigns_to_name(block, nome);
    if !reads_name(lidos, nome) && !reat {
        return Some(String::new());
    }
    let base = match narrowed_base_type(cond, nome) {
        Some(b) => b,
        None => return Some(String::new()),
    };
    let t = rust_type_name(&base)?;
    let mut s = indent_text(depth);
    if reat {
        let alias = alias_opcional(nome);
        s.append("let ");
        s.append(alias.as_str());
        s.append(": &mut Option<");
        s.append(t.as_str());
        s.append("> = &mut ");
        s.append(nome);
        s.append(";\n");
        indent(&mut s, depth);
        s.append("let mut ");
        s.append(nome);
        s.append(": ");
        s.append(t.as_str());
        s.append(" = ");
        s.append(alias.as_str());
        s.append(".clone().unwrap();\n");
    } else {
        s.append("let ");
        s.append(nome);
        s.append(": ");
        s.append(t.as_str());
        s.append(" = ");
        s.append(nome);
        s.append(".clone().unwrap();\n");
    }
    Some(s)
}

/// The body of a `then` branch (see `spec_narrowed_block`).
#[verifier::loop_isolation(false)]
pub fn emit_narrowed_block(then: &TypedThen, depth: usize, ctx: &EmitCtx) -> (r: Option<String>)
    ensures
        opt_view(r) == spec_narrowed_block(ctx@, *then, depth),
    decreases then, 3int,
{
    if then.narrowed.len() == 0 {
        return emit_block_stats(&then.block, depth, ctx);
    }
    let ns = &then.narrowed;
    let lidos = referenced_names(&then.block);
    let mut pre = String::new();
    let mut i: usize = 0;
    while i < ns.len()
        invariant
            i <= ns@.len(),
            views(lidos@) == spec_refs_stat(then.block),
            spec_narrow_prelude(then.block, then.condition, ns@.subrange(0, i as int), depth) == Some(pre@),
        decreases ns@.len() - i,
    {
        proof {
            assert(ns@.subrange(0, i + 1).drop_last() =~= ns@.subrange(0, i as int));
            assert(ns@.subrange(0, i + 1).last() == ns@[i as int]);
        }
        let x = match narrow_binding(&then.block, &then.condition, &lidos, ns[i].as_str(), depth) {
            Some(x) => x,
            None => {
                proof { lemma_prelude_none(then.block, then.condition, ns@, depth, i + 1); }
                return None;
            },
        };
        pre.append(x.as_str());
        i += 1;
    }
    proof { assert(ns@.subrange(0, ns@.len() as int) =~= ns@); }
    let body = emit_block_stats(&then.block, depth, ctx)?;
    let mut wb = String::new();
    let mut j: usize = ns.len();
    proof { assert(ns@.subrange(j as int, ns@.len() as int).len() == 0); }
    while j > 0
        invariant
            j <= ns@.len(),
            wb@ == spec_writeback(then.block, then.condition, ns@.subrange(j as int, ns@.len() as int), depth),
        decreases j,
    {
        j -= 1;
        proof {
            assert(ns@.subrange(j as int, ns@.len() as int).drop_first() =~= ns@.subrange(j + 1, ns@.len() as int));
            assert(ns@.subrange(j as int, ns@.len() as int)[0] == ns@[j as int]);
        }
        let nome = ns[j].as_str();
        if assigns_to_name(&then.block, nome) && narrowed_base_type(&then.condition, nome).is_some() {
            let mut item = indent_text(depth);
            item.append("*");
            item.append(alias_opcional(nome).as_str());
            item.append(" = Some(");
            item.append(nome);
            item.append(");\n");
            wb.append(item.as_str());
        } else {
            assert(wb@ + Seq::<char>::empty() =~= wb@);
        }
    }
    proof { assert(ns@.subrange(0, ns@.len() as int) =~= ns@); }
    let mut s = pre;
    s.append(body.as_str());
    s.append(wb.as_str());
    Some(s)
}

} // verus!
