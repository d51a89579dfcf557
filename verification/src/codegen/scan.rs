//! Scans of a typed body that decide how names are emitted: which names a
//! body reads (a parameter never read is emitted as `_name`), which names
//! it assigns directly (a narrowed name assigned in its branch is written
//! back), and the base type of a narrowed name.
use vstd::prelude::*;
use crate::checker::typed::{
    Callee, TypedExp, TypedExpKind, TypedLValue, TypedMultiValues, TypedStat, TypedThen,
};
use crate::text::{copy_string, str_eq};
use crate::types::{Type, TypeModel};

verus! {

broadcast use vstd::std_specs::vec::axiom_vec_decreases_to_view;

/// The characters of each string.
pub open spec fn views(s: Seq<String>) -> Seq<Seq<char>> {
    s.map_values(|x: String| x@)
}

proof fn lemma_views_push(s: Seq<String>, x: String)
    ensures
        views(s.push(x)) == views(s).push(x@),
{
    assert(views(s.push(x)) =~= views(s).push(x@));
}

/// Names read by an expression, in traversal order (with repetitions).
pub open spec fn spec_refs_exp(e: TypedExp) -> Seq<Seq<char>>
    decreases e,
{
    match e.kind {
        TypedExpKind::Var(n) => seq![n@],
        TypedExpKind::Call { callee, args } => (match callee {
            Callee::Method { recv, .. } => spec_refs_exp(*recv),
            _ => Seq::empty(),
        }) + spec_refs_exps(args@),
        TypedExpKind::Concat(ps) => spec_refs_exps(ps@),
        TypedExpKind::Binop { lhs, rhs, .. } => spec_refs_exp(*lhs) + spec_refs_exp(*rhs),
        TypedExpKind::Unop { exp, .. } => spec_refs_exp(*exp),
        TypedExpKind::Index { base, index } => spec_refs_exp(*base) + spec_refs_exp(*index),
        TypedExpKind::Field { base, .. } => spec_refs_exp(*base),
        TypedExpKind::ArrayLit(es) => spec_refs_exps(es@),
        TypedExpKind::RecordLit { fields, .. } => spec_refs_fields(fields@),
        TypedExpKind::MapLit(entries) => spec_refs_entries(entries@),
        TypedExpKind::Adjust(inner) => spec_refs_exp(*inner),
        TypedExpKind::Extra { exp, .. } => spec_refs_exp(*exp),
        TypedExpKind::SomeOf(inner) => spec_refs_exp(*inner),
        TypedExpKind::Cast { exp, .. } => spec_refs_exp(*exp),
        _ => Seq::empty(),
    }
}

pub open spec fn spec_refs_exps(es: Seq<TypedExp>) -> Seq<Seq<char>>
    decreases es,
{
    if es.len() == 0 {
        Seq::empty()
    } else {
        spec_refs_exps(es.drop_last()) + spec_refs_exp(es.last())
    }
}

pub open spec fn spec_refs_fields(fs: Seq<(String, TypedExp)>) -> Seq<Seq<char>>
    decreases fs,
{
    if fs.len() == 0 {
        Seq::empty()
    } else {
        spec_refs_fields(fs.drop_last()) + spec_refs_exp(fs.last().1)
    }
}

pub open spec fn spec_refs_entries(es: Seq<(TypedExp, TypedExp)>) -> Seq<Seq<char>>
    decreases es,
{
    if es.len() == 0 {
        Seq::empty()
    } else {
        spec_refs_entries(es.drop_last()) + spec_refs_exp(es.last().0) + spec_refs_exp(es.last().1)
    }
}

/// Names read by an assignment target: none for a bare name, the base
/// (and index) of a write through a composite.
pub open spec fn spec_refs_lvalue(t: TypedLValue) -> Seq<Seq<char>> {
    match t {
        TypedLValue::Name(_) => Seq::empty(),
        TypedLValue::Index { base, index } => spec_refs_exp(*base) + spec_refs_exp(*index),
        TypedLValue::Field { base, .. } => spec_refs_exp(*base),
    }
}

pub open spec fn spec_refs_lvalues(ts: Seq<TypedLValue>) -> Seq<Seq<char>>
    decreases ts.len(),
{
    if ts.len() == 0 {
        Seq::empty()
    } else {
        spec_refs_lvalues(ts.drop_last()) + spec_refs_lvalue(ts.last())
    }
}

/// Names read by the right-hand side of a multiple declaration or
/// assignment.
pub open spec fn spec_refs_multi(v: TypedMultiValues) -> Seq<Seq<char>> {
    match v {
        TypedMultiValues::Call(c) => spec_refs_exp(c),
        TypedMultiValues::List(es) => spec_refs_exps(es@),
    }
}

/// Names read by a statement, in traversal order.  Declared and loop names
/// are destinations, not reads.
pub open spec fn spec_refs_stat(s: TypedStat) -> Seq<Seq<char>>
    decreases s,
{
    match s {
        TypedStat::Block { stats, .. } => spec_refs_stats(stats@),
        TypedStat::Decl { value, .. } => spec_refs_exp(value),
        TypedStat::DeclMulti { values, .. } => spec_refs_multi(values),
        TypedStat::AssignMulti { targets, values, .. } => spec_refs_lvalues(targets@) + spec_refs_multi(values),
        TypedStat::Call { call, .. } => spec_refs_exp(call),
        TypedStat::Return { exps, .. } => spec_refs_exps(exps@),
        TypedStat::If { thens, elsestat, .. } => spec_refs_thens(thens@) + match elsestat {
            Some(e) => spec_refs_stat(*e),
            None => Seq::empty(),
        },
        TypedStat::While { condition, block, .. } => spec_refs_exp(condition) + spec_refs_stat(*block),
        TypedStat::Repeat { block, condition, .. } => spec_refs_stat(*block) + spec_refs_exp(condition),
        TypedStat::ForIn { container, block, .. } => spec_refs_exp(container) + spec_refs_stat(*block),
        TypedStat::For { start, finish, inc, block, .. } => spec_refs_exp(start) + spec_refs_exp(finish)
            + spec_refs_exp(*inc) + spec_refs_stat(*block),
        TypedStat::Assign { target, value, .. } => spec_refs_lvalue(target) + spec_refs_exp(value),
        TypedStat::Break { .. } => Seq::empty(),
        TypedStat::Continue { .. } => Seq::empty(),
    }
}

pub open spec fn spec_refs_stats(ss: Seq<TypedStat>) -> Seq<Seq<char>>
    decreases ss,
{
    if ss.len() == 0 {
        Seq::empty()
    } else {
        spec_refs_stats(ss.drop_last()) + spec_refs_stat(ss.last())
    }
}

pub open spec fn spec_refs_thens(ts: Seq<TypedThen>) -> Seq<Seq<char>>
    decreases ts,
{
    if ts.len() == 0 {
        Seq::empty()
    } else {
        spec_refs_thens(ts.drop_last()) + spec_refs_exp(ts.last().condition) + spec_refs_stat(
            ts.last().block,
        )
    }
}

/// The target is the name `n` itself.
pub open spec fn spec_lvalue_is_name(t: TypedLValue, n: Seq<char>) -> bool {
    match t {
        TypedLValue::Name(x) => x@ == n,
        _ => false,
    }
}

pub open spec fn spec_targets_name(ts: Seq<TypedLValue>, n: Seq<char>) -> bool
    decreases ts.len(),
{
    ts.len() > 0 && (spec_targets_name(ts.drop_last(), n) || spec_lvalue_is_name(ts.last(), n))
}

/// Some assignment in the statement writes the name `n` itself (`n = ..`,
/// `a, n = ..`); writing through it (`n[i] = ..`) does not count, nor does
/// a new `local n`.
pub open spec fn spec_assigns(s: TypedStat, n: Seq<char>) -> bool
    decreases s,
{
    match s {
        TypedStat::Block { stats, .. } => spec_assigns_stats(stats@, n),
        TypedStat::Assign { target, .. } => spec_lvalue_is_name(target, n),
        TypedStat::AssignMulti { targets, .. } => spec_targets_name(targets@, n),
        TypedStat::If { thens, elsestat, .. } => spec_assigns_thens(thens@, n) || match elsestat {
            Some(e) => spec_assigns(*e, n),
            None => false,
        },
        TypedStat::While { block, .. } => spec_assigns(*block, n),
        TypedStat::Repeat { block, .. } => spec_assigns(*block, n),
        TypedStat::For { block, .. } => spec_assigns(*block, n),
        TypedStat::ForIn { block, .. } => spec_assigns(*block, n),
        _ => false,
    }
}

pub open spec fn spec_assigns_stats(ss: Seq<TypedStat>, n: Seq<char>) -> bool
    decreases ss,
{
    ss.len() > 0 && (spec_assigns_stats(ss.drop_last(), n) || spec_assigns(ss.last(), n))
}

pub open spec fn spec_assigns_thens(ts: Seq<TypedThen>, n: Seq<char>) -> bool
    decreases ts,
{
    ts.len() > 0 && (spec_assigns_thens(ts.drop_last(), n) || spec_assigns(ts.last().block, n))
}

/// The base type `T` of the name `n` that a condition tests as a `T?`,
/// looked for through `and`/`or` operands; `None` when the condition does
/// not mention `n` with an optional type.
pub open spec fn spec_narrowed_base(e: TypedExp, n: Seq<char>) -> Option<TypeModel>
    decreases e,
{
    let here = match e.kind {
        TypedExpKind::Var(x) => x@ == n && e.ty is Option,
        _ => false,
    };
    if here {
        match e.ty {
            Type::Option { base } => Some(base.model()),
            _ => None,
        }
    } else {
        match e.kind {
            TypedExpKind::Binop { lhs, rhs, .. } => match spec_narrowed_base(*lhs, n) {
                Some(t) => Some(t),
                None => spec_narrowed_base(*rhs, n),
            },
            _ => None,
        }
    }
}

// ---------------------------------------------------------------------

/// Appends the names that `exp` reads.
#[verifier::loop_isolation(false)]
pub fn collect_referenced_names_exp(exp: &TypedExp, names: &mut Vec<String>)
    ensures
        views(final(names)@) == views(old(names)@) + spec_refs_exp(*exp),
    decreases exp,
{
    match &exp.kind {
        TypedExpKind::Var(name) => {
            proof { lemma_views_push(names@, *name); }
            names.push(copy_string(name));
            assert(views(names@) =~= views(old(names)@) + seq![name@]);
        },
        TypedExpKind::Call { callee, args } => {
            match callee {
                Callee::Method { recv, .. } => collect_referenced_names_exp(&**recv, names),
                _ => {},
            }
            collect_referenced_names_exps(args, names);
            assert(views(names@) =~= views(old(names)@) + spec_refs_exp(*exp));
        },
        TypedExpKind::Concat(parts) => collect_referenced_names_exps(parts, names),
        TypedExpKind::Binop { lhs, rhs, .. } => {
            collect_referenced_names_exp(&**lhs, names);
            collect_referenced_names_exp(&**rhs, names);
            assert(views(names@) =~= views(old(names)@) + spec_refs_exp(*exp));
        },
        TypedExpKind::Unop { exp: inner, .. } => collect_referenced_names_exp(&**inner, names),
        TypedExpKind::Index { base, index } => {
            collect_referenced_names_exp(&**base, names);
            collect_referenced_names_exp(&**index, names);
            assert(views(names@) =~= views(old(names)@) + spec_refs_exp(*exp));
        },
        TypedExpKind::Field { base, .. } => collect_referenced_names_exp(&**base, names),
        TypedExpKind::ArrayLit(exps) => collect_referenced_names_exps(exps, names),
        TypedExpKind::RecordLit { fields, .. } => {
            let mut i: usize = 0;
            while i < fields.len()
                invariant
                    i <= fields@.len(),
                    views(names@) == views(old(names)@) + spec_refs_fields(fields@.subrange(0, i as int)),
                decreases fields@.len() - i,
            {
                proof {
                    assert(decreases_to!(fields => fields@[i as int].1));
                    assert(fields@.subrange(0, i + 1).drop_last() =~= fields@.subrange(0, i as int));
                }
                collect_referenced_names_exp(&fields[i].1, names);
                assert(views(names@) =~= views(old(names)@) + spec_refs_fields(fields@.subrange(0, i + 1)));
                i += 1;
            }
            assert(fields@.subrange(0, fields@.len() as int) =~= fields@);
        },
        TypedExpKind::MapLit(entries) => {
            let mut i: usize = 0;
            while i < entries.len()
                invariant
                    i <= entries@.len(),
                    views(names@) == views(old(names)@) + spec_refs_entries(entries@.subrange(0, i as int)),
                decreases entries@.len() - i,
            {
                proof {
                    assert(decreases_to!(entries => entries@[i as int].0));
                    assert(decreases_to!(entries => entries@[i as int].1));
                    assert(entries@.subrange(0, i + 1).drop_last() =~= entries@.subrange(0, i as int));
                }
                collect_referenced_names_exp(&entries[i].0, names);
                collect_referenced_names_exp(&entries[i].1, names);
                assert(views(names@) =~= views(old(names)@) + spec_refs_entries(entries@.subrange(0, i + 1)));
                i += 1;
            }
            assert(entries@.subrange(0, entries@.len() as int) =~= entries@);
        },
        TypedExpKind::Adjust(inner) => collect_referenced_names_exp(&**inner, names),
        TypedExpKind::Extra { exp: inner, .. } => collect_referenced_names_exp(&**inner, names),
        TypedExpKind::SomeOf(inner) => collect_referenced_names_exp(&**inner, names),
        TypedExpKind::Cast { exp: inner, .. } => collect_referenced_names_exp(&**inner, names),
        _ => {
            assert(views(names@) =~= views(old(names)@) + spec_refs_exp(*exp));
        },
    }
}

/// Appends the names that the expressions read.
#[verifier::loop_isolation(false)]
pub fn collect_referenced_names_exps(exps: &Vec<TypedExp>, names: &mut Vec<String>)
    ensures
        views(final(names)@) == views(old(names)@) + spec_refs_exps(exps@),
    decreases exps,
{
    let mut i: usize = 0;
    while i < exps.len()
        invariant
            i <= exps@.len(),
            views(names@) == views(old(names)@) + spec_refs_exps(exps@.subrange(0, i as int)),
        decreases exps@.len() - i,
    {
        proof {
            assert(decreases_to!(exps => exps@[i as int]));
            assert(exps@.subrange(0, i + 1).drop_last() =~= exps@.subrange(0, i as int));
        }
        collect_referenced_names_exp(&exps[i], names);
        assert(views(names@) =~= views(old(names)@) + spec_refs_exps(exps@.subrange(0, i + 1)));
        i += 1;
    }
    assert(exps@.subrange(0, exps@.len() as int) =~= exps@);
}

/// Appends the names that an assignment target reads.
pub fn collect_referenced_names_lvalue(target: &TypedLValue, names: &mut Vec<String>)
    ensures
        views(final(names)@) == views(old(names)@) + spec_refs_lvalue(*target),
{
    match target {
        TypedLValue::Name(_) => {
            assert(views(names@) =~= views(old(names)@) + spec_refs_lvalue(*target));
        },
        TypedLValue::Index { base, index } => {
            collect_referenced_names_exp(&**base, names);
            collect_referenced_names_exp(&**index, names);
            assert(views(names@) =~= views(old(names)@) + spec_refs_lvalue(*target));
        },
        TypedLValue::Field { base, .. } => collect_referenced_names_exp(&**base, names),
    }
}

/// Appends the names that the right-hand side of a multiple declaration or
/// assignment reads.
pub fn collect_referenced_names_multi(values: &TypedMultiValues, names: &mut Vec<String>)
    ensures
        views(final(names)@) == views(old(names)@) + spec_refs_multi(*values),
{
    match values {
        TypedMultiValues::Call(call) => collect_referenced_names_exp(call, names),
        TypedMultiValues::List(exps) => collect_referenced_names_exps(exps, names),
    }
}

/// Appends the names that a statement reads.
#[verifier::loop_isolation(false)]
pub fn collect_referenced_names_stat(stat: &TypedStat, names: &mut Vec<String>)
    ensures
        views(final(names)@) == views(old(names)@) + spec_refs_stat(*stat),
    decreases stat,
{
    match stat {
        TypedStat::Block { stats, .. } => {
            let mut i: usize = 0;
            while i < stats.len()
                invariant
                    i <= stats@.len(),
                    views(names@) == views(old(names)@) + spec_refs_stats(stats@.subrange(0, i as int)),
                decreases stats@.len() - i,
            {
                proof {
                    assert(decreases_to!(stats => stats@[i as int]));
                    assert(stats@.subrange(0, i + 1).drop_last() =~= stats@.subrange(0, i as int));
                }
                collect_referenced_names_stat(&stats[i], names);
                assert(views(names@) =~= views(old(names)@) + spec_refs_stats(stats@.subrange(0, i + 1)));
                i += 1;
            }
            assert(stats@.subrange(0, stats@.len() as int) =~= stats@);
        },
        TypedStat::Decl { value, .. } => collect_referenced_names_exp(value, names),
        TypedStat::DeclMulti { values, .. } => collect_referenced_names_multi(values, names),
        TypedStat::AssignMulti { targets, values, .. } => {
            let mut i: usize = 0;
            while i < targets.len()
                invariant
                    i <= targets@.len(),
                    views(names@) == views(old(names)@) + spec_refs_lvalues(targets@.subrange(0, i as int)),
                decreases targets@.len() - i,
            {
                proof {
                    assert(targets@.subrange(0, i + 1).drop_last() =~= targets@.subrange(0, i as int));
                }
                collect_referenced_names_lvalue(&targets[i], names);
                assert(views(names@) =~= views(old(names)@) + spec_refs_lvalues(targets@.subrange(0, i + 1)));
                i += 1;
            }
            assert(targets@.subrange(0, targets@.len() as int) =~= targets@);
            collect_referenced_names_multi(values, names);
            assert(views(names@) =~= views(old(names)@) + spec_refs_stat(*stat));
        },
        TypedStat::Call { call, .. } => collect_referenced_names_exp(call, names),
        TypedStat::Return { exps, .. } => collect_referenced_names_exps(exps, names),
        TypedStat::If { thens, elsestat, .. } => {
            let mut i: usize = 0;
            while i < thens.len()
                invariant
                    i <= thens@.len(),
                    views(names@) == views(old(names)@) + spec_refs_thens(thens@.subrange(0, i as int)),
                decreases thens@.len() - i,
            {
                proof {
                    assert(decreases_to!(thens => thens@[i as int].block));
                    assert(thens@.subrange(0, i + 1).drop_last() =~= thens@.subrange(0, i as int));
                }
                collect_referenced_names_exp(&thens[i].condition, names);
                collect_referenced_names_stat(&thens[i].block, names);
                assert(views(names@) =~= views(old(names)@) + spec_refs_thens(thens@.subrange(0, i + 1)));
                i += 1;
            }
            assert(thens@.subrange(0, thens@.len() as int) =~= thens@);
            match elsestat {
                Some(e) => collect_referenced_names_stat(&**e, names),
                None => {},
            }
            assert(views(names@) =~= views(old(names)@) + spec_refs_stat(*stat));
        },
        TypedStat::While { condition, block, .. } => {
            collect_referenced_names_exp(condition, names);
            collect_referenced_names_stat(&**block, names);
            assert(views(names@) =~= views(old(names)@) + spec_refs_stat(*stat));
        },
        TypedStat::Repeat { block, condition, .. } => {
            collect_referenced_names_stat(&**block, names);
            collect_referenced_names_exp(condition, names);
            assert(views(names@) =~= views(old(names)@) + spec_refs_stat(*stat));
        },
        TypedStat::ForIn { container, block, .. } => {
            collect_referenced_names_exp(container, names);
            collect_referenced_names_stat(&**block, names);
            assert(views(names@) =~= views(old(names)@) + spec_refs_stat(*stat));
        },
        TypedStat::For { start, finish, inc, block, .. } => {
            collect_referenced_names_exp(start, names);
            collect_referenced_names_exp(finish, names);
            collect_referenced_names_exp(&**inc, names);
            collect_referenced_names_stat(&**block, names);
            assert(views(names@) =~= views(old(names)@) + spec_refs_stat(*stat));
        },
        TypedStat::Assign { target, value, .. } => {
            collect_referenced_names_lvalue(target, names);
            collect_referenced_names_exp(value, names);
            assert(views(names@) =~= views(old(names)@) + spec_refs_stat(*stat));
        },
        TypedStat::Break { .. } | TypedStat::Continue { .. } => {
            assert(views(names@) =~= views(old(names)@) + spec_refs_stat(*stat));
        },
    }
}

/// The names that a statement reads, in traversal order.
pub fn referenced_names(stat: &TypedStat) -> (r: Vec<String>)
    ensures
        views(r@) == spec_refs_stat(*stat),
{
    let mut names: Vec<String> = Vec::new();
    assert(views(names@) =~= Seq::<Seq<char>>::empty());
    collect_referenced_names_stat(stat, &mut names);
    assert(views(names@) =~= spec_refs_stat(*stat));
    names
}

/// Whether the list of read names holds `name`.
pub fn reads_name(lidos: &Vec<String>, name: &str) -> (r: bool)
    ensures
        r == views(lidos@).contains(name@),
{
    let mut i: usize = 0;
    while i < lidos.len()
        invariant
            i <= lidos@.len(),
            forall|j: int| 0 <= j < i ==> lidos@[j]@ != name@,
        decreases lidos@.len() - i,
    {
        if str_eq(lidos[i].as_str(), name) {
            assert(views(lidos@)[i as int] == name@);
            return true;
        }
        i += 1;
    }
    assert forall|j: int| 0 <= j < views(lidos@).len() implies views(lidos@)[j] != name@ by {
        assert(views(lidos@)[j] == lidos@[j]@);
    }
    false
}

fn lvalue_e_o_nome(target: &TypedLValue, nome: &str) -> (r: bool)
    ensures
        r == spec_lvalue_is_name(*target, nome@),
{
    match target {
        TypedLValue::Name(n) => str_eq(n.as_str(), nome),
        _ => false,
    }
}

/// Whether some assignment in `stat` writes the name `nome` itself.
#[verifier::loop_isolation(false)]
pub fn assigns_to_name(stat: &TypedStat, nome: &str) -> (r: bool)
    ensures
        r == spec_assigns(*stat, nome@),
    decreases stat,
{
    match stat {
        TypedStat::Block { stats, .. } => {
            let mut i: usize = 0;
            while i < stats.len()
                invariant
                    i <= stats@.len(),
                    !spec_assigns_stats(stats@.subrange(0, i as int), nome@),
                decreases stats@.len() - i,
            {
                proof {
                    assert(decreases_to!(stats => stats@[i as int]));
                    assert(stats@.subrange(0, i + 1).drop_last() =~= stats@.subrange(0, i as int));
                }
                if assigns_to_name(&stats[i], nome) {
                    proof { lemma_assigns_stats_prefix(stats@, i + 1, nome@); }
                    return true;
                }
                i += 1;
            }
            assert(stats@.subrange(0, stats@.len() as int) =~= stats@);
            false
        },
        TypedStat::Assign { target, .. } => lvalue_e_o_nome(target, nome),
        TypedStat::AssignMulti { targets, .. } => {
            let mut i: usize = 0;
            while i < targets.len()
                invariant
                    i <= targets@.len(),
                    !spec_targets_name(targets@.subrange(0, i as int), nome@),
                decreases targets@.len() - i,
            {
                proof {
                    assert(targets@.subrange(0, i + 1).drop_last() =~= targets@.subrange(0, i as int));
                }
                if lvalue_e_o_nome(&targets[i], nome) {
                    proof { lemma_targets_name_prefix(targets@, i + 1, nome@); }
                    return true;
                }
                i += 1;
            }
            assert(targets@.subrange(0, targets@.len() as int) =~= targets@);
            false
        },
        TypedStat::If { thens, elsestat, .. } => {
            let mut i: usize = 0;
            while i < thens.len()
                invariant
                    i <= thens@.len(),
                    !spec_assigns_thens(thens@.subrange(0, i as int), nome@),
                decreases thens@.len() - i,
            {
                proof {
                    assert(decreases_to!(thens => thens@[i as int].block));
                    assert(thens@.subrange(0, i + 1).drop_last() =~= thens@.subrange(0, i as int));
                }
                if assigns_to_name(&thens[i].block, nome) {
                    proof { lemma_assigns_thens_prefix(thens@, i + 1, nome@); }
                    return true;
                }
                i += 1;
            }
            assert(thens@.subrange(0, thens@.len() as int) =~= thens@);
            match elsestat {
                Some(e) => assigns_to_name(&**e, nome),
                None => false,
            }
        },
        TypedStat::While { block, .. } => assigns_to_name(&**block, nome),
        TypedStat::Repeat { block, .. } => assigns_to_name(&**block, nome),
        TypedStat::For { block, .. } => assigns_to_name(&**block, nome),
        TypedStat::ForIn { block, .. } => assigns_to_name(&**block, nome),
        _ => false,
    }
}

proof fn lemma_assigns_stats_prefix(ss: Seq<TypedStat>, j: int, n: Seq<char>)
    requires
        1 <= j <= ss.len(),
        spec_assigns_stats(ss.subrange(0, j), n),
    ensures
        spec_assigns_stats(ss, n),
    decreases ss.len(),
{
    if j == ss.len() {
        assert(ss.subrange(0, j) =~= ss);
    } else {
        assert(ss.drop_last().subrange(0, j) =~= ss.subrange(0, j));
        lemma_assigns_stats_prefix(ss.drop_last(), j, n);
    }
}

proof fn lemma_targets_name_prefix(ts: Seq<TypedLValue>, j: int, n: Seq<char>)
    requires
        1 <= j <= ts.len(),
        spec_targets_name(ts.subrange(0, j), n),
    ensures
        spec_targets_name(ts, n),
    decreases ts.len(),
{
    if j == ts.len() {
        assert(ts.subrange(0, j) =~= ts);
    } else {
        assert(ts.drop_last().subrange(0, j) =~= ts.subrange(0, j));
        lemma_targets_name_prefix(ts.drop_last(), j, n);
    }
}

proof fn lemma_assigns_thens_prefix(ts: Seq<TypedThen>, j: int, n: Seq<char>)
    requires
        1 <= j <= ts.len(),
        spec_assigns_thens(ts.subrange(0, j), n),
    ensures
        spec_assigns_thens(ts, n),
    decreases ts.len(),
{
    if j == ts.len() {
        assert(ts.subrange(0, j) =~= ts);
    } else {
        assert(ts.drop_last().subrange(0, j) =~= ts.subrange(0, j));
        lemma_assigns_thens_prefix(ts.drop_last(), j, n);
    }
}

/// The base type of the narrowed name `nome` in `condition` (see
/// `spec_narrowed_base`).
pub fn narrowed_base_type(condition: &TypedExp, nome: &str) -> (r: Option<Type>)
    ensures
        match r {
            Some(t) => spec_narrowed_base(*condition, nome@) == Some(t.model()),
            None => spec_narrowed_base(*condition, nome@) is None,
        },
    decreases condition,
{
    let here = match &condition.kind {
        TypedExpKind::Var(n) => str_eq(n.as_str(), nome) && matches!(condition.ty, Type::Option { .. }),
        _ => false,
    };
    if here {
        return match &condition.ty {
            Type::Option { base } => Some(base.copy()),
            _ => None,
        };
    }
    match &condition.kind {
        TypedExpKind::Binop { lhs, rhs, .. } => match narrowed_base_type(&**lhs, nome) {
            Some(t) => Some(t),
            None => narrowed_base_type(&**rhs, nome),
        },
        _ => None,
    }
}

} // verus!
