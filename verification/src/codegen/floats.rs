//! The float literals of a program.  Their Rust text is made outside the
//! library, which holds no floating-point numbers; the back end receives it
//! as a table keyed by bit pattern.
use vstd::prelude::*;
use crate::checker::typed::{
    Callee, TypedExp, TypedExpKind, TypedLValue, TypedMultiValues, TypedProgram, TypedStat,
    TypedThen, TypedTopLevel,
};

verus! {

broadcast use vstd::std_specs::vec::axiom_vec_decreases_to_view;

/// Bit patterns of the float literals of an expression, in traversal order.
pub open spec fn spec_floats_exp(e: TypedExp) -> Seq<u64>
    decreases e,
{
    match e.kind {
        TypedExpKind::Float(b) => seq![b],
        TypedExpKind::Call { callee, args } => (match callee {
            Callee::Method { recv, .. } => spec_floats_exp(*recv),
            _ => Seq::empty(),
        }) + spec_floats_exps(args@),
        TypedExpKind::Concat(ps) => spec_floats_exps(ps@),
        TypedExpKind::Binop { lhs, rhs, .. } => spec_floats_exp(*lhs) + spec_floats_exp(*rhs),
        TypedExpKind::Unop { exp, .. } => spec_floats_exp(*exp),
        TypedExpKind::Index { base, index } => spec_floats_exp(*base) + spec_floats_exp(*index),
        TypedExpKind::Field { base, .. } => spec_floats_exp(*base),
        TypedExpKind::ArrayLit(es) => spec_floats_exps(es@),
        TypedExpKind::RecordLit { fields, .. } => spec_floats_fields(fields@),
        TypedExpKind::MapLit(entries) => spec_floats_entries(entries@),
        TypedExpKind::Adjust(inner) => spec_floats_exp(*inner),
        TypedExpKind::Extra { exp, .. } => spec_floats_exp(*exp),
        TypedExpKind::SomeOf(inner) => spec_floats_exp(*inner),
        TypedExpKind::Cast { exp, .. } => spec_floats_exp(*exp),
        _ => Seq::empty(),
    }
}

pub open spec fn spec_floats_exps(es: Seq<TypedExp>) -> Seq<u64>
    decreases es,
{
    if es.len() == 0 {
        Seq::empty()
    } else {
        spec_floats_exps(es.drop_last()) + spec_floats_exp(es.last())
    }
}

pub open spec fn spec_floats_fields(fs: Seq<(String, TypedExp)>) -> Seq<u64>
    decreases fs,
{
    if fs.len() == 0 {
        Seq::empty()
    } else {
        spec_floats_fields(fs.drop_last()) + spec_floats_exp(fs.last().1)
    }
}

pub open spec fn spec_floats_entries(es: Seq<(TypedExp, TypedExp)>) -> Seq<u64>
    decreases es,
{
    if es.len() == 0 {
        Seq::empty()
    } else {
        spec_floats_entries(es.drop_last()) + spec_floats_exp(es.last().0) + spec_floats_exp(es.last().1)
    }
}

/// Float literals of an assignment target.
pub open spec fn spec_floats_lvalue(t: TypedLValue) -> Seq<u64> {
    match t {
        TypedLValue::Name(_) => Seq::empty(),
        TypedLValue::Index { base, index } => spec_floats_exp(*base) + spec_floats_exp(*index),
        TypedLValue::Field { base, .. } => spec_floats_exp(*base),
    }
}

pub open spec fn spec_floats_lvalues(ts: Seq<TypedLValue>) -> Seq<u64>
    decreases ts.len(),
{
    if ts.len() == 0 {
        Seq::empty()
    } else {
        spec_floats_lvalues(ts.drop_last()) + spec_floats_lvalue(ts.last())
    }
}

/// Float literals of the right-hand side of a multiple declaration or
/// assignment.
pub open spec fn spec_floats_multi(v: TypedMultiValues) -> Seq<u64> {
    match v {
        TypedMultiValues::Call(c) => spec_floats_exp(c),
        TypedMultiValues::List(es) => spec_floats_exps(es@),
    }
}

/// Float literals of a statement, in traversal order.
pub open spec fn spec_floats_stat(s: TypedStat) -> Seq<u64>
    decreases s,
{
    match s {
        TypedStat::Block { stats, .. } => spec_floats_stats(stats@),
        TypedStat::Decl { value, .. } => spec_floats_exp(value),
        TypedStat::DeclMulti { values, .. } => spec_floats_multi(values),
        TypedStat::AssignMulti { targets, values, .. } => spec_floats_lvalues(targets@) + spec_floats_multi(values),
        TypedStat::Call { call, .. } => spec_floats_exp(call),
        TypedStat::Return { exps, .. } => spec_floats_exps(exps@),
        TypedStat::If { thens, elsestat, .. } => spec_floats_thens(thens@) + match elsestat {
            Some(e) => spec_floats_stat(*e),
            None => Seq::empty(),
        },
        TypedStat::While { condition, block, .. } => spec_floats_exp(condition) + spec_floats_stat(*block),
        TypedStat::Repeat { block, condition, .. } => spec_floats_stat(*block) + spec_floats_exp(condition),
        TypedStat::ForIn { container, block, .. } => spec_floats_exp(container) + spec_floats_stat(*block),
        TypedStat::For { start, finish, inc, block, .. } => spec_floats_exp(start) + spec_floats_exp(finish)
            + spec_floats_exp(*inc) + spec_floats_stat(*block),
        TypedStat::Assign { target, value, .. } => spec_floats_lvalue(target) + spec_floats_exp(value),
        TypedStat::Break { .. } => Seq::empty(),
        TypedStat::Continue { .. } => Seq::empty(),
    }
}

pub open spec fn spec_floats_stats(ss: Seq<TypedStat>) -> Seq<u64>
    decreases ss,
{
    if ss.len() == 0 {
        Seq::empty()
    } else {
        spec_floats_stats(ss.drop_last()) + spec_floats_stat(ss.last())
    }
}

pub open spec fn spec_floats_thens(ts: Seq<TypedThen>) -> Seq<u64>
    decreases ts,
{
    if ts.len() == 0 {
        Seq::empty()
    } else {
        spec_floats_thens(ts.drop_last()) + spec_floats_exp(ts.last().condition) + spec_floats_stat(
            ts.last().block,
        )
    }
}

/// Appends the float literals of `exp`.
#[verifier::loop_isolation(false)]
pub fn collect_floats_exp(exp: &TypedExp, names: &mut Vec<u64>)
    ensures
        final(names)@ == old(names)@ + spec_floats_exp(*exp),
    decreases exp,
{
    match &exp.kind {
        TypedExpKind::Float(b) => {
            names.push(*b);
            assert(names@ =~= old(names)@ + seq![*b]);
        },
        TypedExpKind::Call { callee, args } => {
            match callee {
                Callee::Method { recv, .. } => collect_floats_exp(&**recv, names),
                _ => {},
            }
            collect_floats_exps(args, names);
            assert(names@ =~= old(names)@ + spec_floats_exp(*exp));
        },
        TypedExpKind::Concat(parts) => collect_floats_exps(parts, names),
        TypedExpKind::Binop { lhs, rhs, .. } => {
            collect_floats_exp(&**lhs, names);
            collect_floats_exp(&**rhs, names);
            assert(names@ =~= old(names)@ + spec_floats_exp(*exp));
        },
        TypedExpKind::Unop { exp: inner, .. } => collect_floats_exp(&**inner, names),
        TypedExpKind::Index { base, index } => {
            collect_floats_exp(&**base, names);
            collect_floats_exp(&**index, names);
            assert(names@ =~= old(names)@ + spec_floats_exp(*exp));
        },
        TypedExpKind::Field { base, .. } => collect_floats_exp(&**base, names),
        TypedExpKind::ArrayLit(exps) => collect_floats_exps(exps, names),
        TypedExpKind::RecordLit { fields, .. } => {
            let mut i: usize = 0;
            while i < fields.len()
                invariant
                    i <= fields@.len(),
                    names@ == old(names)@ + spec_floats_fields(fields@.subrange(0, i as int)),
                decreases fields@.len() - i,
            {
                proof {
                    assert(decreases_to!(fields => fields@[i as int].1));
                    assert(fields@.subrange(0, i + 1).drop_last() =~= fields@.subrange(0, i as int));
                }
                collect_floats_exp(&fields[i].1, names);
                assert(names@ =~= old(names)@ + spec_floats_fields(fields@.subrange(0, i + 1)));
                i += 1;
            }
            assert(fields@.subrange(0, fields@.len() as int) =~= fields@);
        },
        TypedExpKind::MapLit(entries) => {
            let mut i: usize = 0;
            while i < entries.len()
                invariant
                    i <= entries@.len(),
                    names@ == old(names)@ + spec_floats_entries(entries@.subrange(0, i as int)),
                decreases entries@.len() - i,
            {
                proof {
                    assert(decreases_to!(entries => entries@[i as int].0));
                    assert(decreases_to!(entries => entries@[i as int].1));
                    assert(entries@.subrange(0, i + 1).drop_last() =~= entries@.subrange(0, i as int));
                }
                collect_floats_exp(&entries[i].0, names);
                collect_floats_exp(&entries[i].1, names);
                assert(names@ =~= old(names)@ + spec_floats_entries(entries@.subrange(0, i + 1)));
                i += 1;
            }
            assert(entries@.subrange(0, entries@.len() as int) =~= entries@);
        },
        TypedExpKind::Adjust(inner) => collect_floats_exp(&**inner, names),
        TypedExpKind::Extra { exp: inner, .. } => collect_floats_exp(&**inner, names),
        TypedExpKind::SomeOf(inner) => collect_floats_exp(&**inner, names),
        TypedExpKind::Cast { exp: inner, .. } => collect_floats_exp(&**inner, names),
        _ => {
            assert(names@ =~= old(names)@ + spec_floats_exp(*exp));
        },
    }
}

/// Appends the float literals of the expressions.
#[verifier::loop_isolation(false)]
pub fn collect_floats_exps(exps: &Vec<TypedExp>, names: &mut Vec<u64>)
    ensures
        final(names)@ == old(names)@ + spec_floats_exps(exps@),
    decreases exps,
{
    let mut i: usize = 0;
    while i < exps.len()
        invariant
            i <= exps@.len(),
            names@ == old(names)@ + spec_floats_exps(exps@.subrange(0, i as int)),
        decreases exps@.len() - i,
    {
        proof {
            assert(decreases_to!(exps => exps@[i as int]));
            assert(exps@.subrange(0, i + 1).drop_last() =~= exps@.subrange(0, i as int));
        }
        collect_floats_exp(&exps[i], names);
        assert(names@ =~= old(names)@ + spec_floats_exps(exps@.subrange(0, i + 1)));
        i += 1;
    }
    assert(exps@.subrange(0, exps@.len() as int) =~= exps@);
}

/// Appends the float literals of an assignment target.
pub fn collect_floats_lvalue(target: &TypedLValue, names: &mut Vec<u64>)
    ensures
        final(names)@ == old(names)@ + spec_floats_lvalue(*target),
{
    match target {
        TypedLValue::Name(_) => {
            assert(names@ =~= old(names)@ + spec_floats_lvalue(*target));
        },
        TypedLValue::Index { base, index } => {
            collect_floats_exp(&**base, names);
            collect_floats_exp(&**index, names);
            assert(names@ =~= old(names)@ + spec_floats_lvalue(*target));
        },
        TypedLValue::Field { base, .. } => collect_floats_exp(&**base, names),
    }
}

/// Appends the float literals of the right-hand side of a multiple
/// declaration or assignment.
pub fn collect_floats_multi(values: &TypedMultiValues, names: &mut Vec<u64>)
    ensures
        final(names)@ == old(names)@ + spec_floats_multi(*values),
{
    match values {
        TypedMultiValues::Call(call) => collect_floats_exp(call, names),
        TypedMultiValues::List(exps) => collect_floats_exps(exps, names),
    }
}

/// Appends the float literals of a statement.
#[verifier::loop_isolation(false)]
pub fn collect_floats_stat(stat: &TypedStat, names: &mut Vec<u64>)
    ensures
        final(names)@ == old(names)@ + spec_floats_stat(*stat),
    decreases stat,
{
    match stat {
        TypedStat::Block { stats, .. } => {
            let mut i: usize = 0;
            while i < stats.len()
                invariant
                    i <= stats@.len(),
                    names@ == old(names)@ + spec_floats_stats(stats@.subrange(0, i as int)),
                decreases stats@.len() - i,
            {
                proof {
                    assert(decreases_to!(stats => stats@[i as int]));
                    assert(stats@.subrange(0, i + 1).drop_last() =~= stats@.subrange(0, i as int));
                }
                collect_floats_stat(&stats[i], names);
                assert(names@ =~= old(names)@ + spec_floats_stats(stats@.subrange(0, i + 1)));
                i += 1;
            }
            assert(stats@.subrange(0, stats@.len() as int) =~= stats@);
        },
        TypedStat::Decl { value, .. } => collect_floats_exp(value, names),
        TypedStat::DeclMulti { values, .. } => collect_floats_multi(values, names),
        TypedStat::AssignMulti { targets, values, .. } => {
            let mut i: usize = 0;
            while i < targets.len()
                invariant
                    i <= targets@.len(),
                    names@ == old(names)@ + spec_floats_lvalues(targets@.subrange(0, i as int)),
                decreases targets@.len() - i,
            {
                proof {
                    assert(targets@.subrange(0, i + 1).drop_last() =~= targets@.subrange(0, i as int));
                }
                collect_floats_lvalue(&targets[i], names);
                assert(names@ =~= old(names)@ + spec_floats_lvalues(targets@.subrange(0, i + 1)));
                i += 1;
            }
            assert(targets@.subrange(0, targets@.len() as int) =~= targets@);
            collect_floats_multi(values, names);
            assert(names@ =~= old(names)@ + spec_floats_stat(*stat));
        },
        TypedStat::Call { call, .. } => collect_floats_exp(call, names),
        TypedStat::Return { exps, .. } => collect_floats_exps(exps, names),
        TypedStat::If { thens, elsestat, .. } => {
            let mut i: usize = 0;
            while i < thens.len()
                invariant
                    i <= thens@.len(),
                    names@ == old(names)@ + spec_floats_thens(thens@.subrange(0, i as int)),
                decreases thens@.len() - i,
            {
                proof {
                    assert(decreases_to!(thens => thens@[i as int].block));
                    assert(thens@.subrange(0, i + 1).drop_last() =~= thens@.subrange(0, i as int));
                }
                collect_floats_exp(&thens[i].condition, names);
                collect_floats_stat(&thens[i].block, names);
                assert(names@ =~= old(names)@ + spec_floats_thens(thens@.subrange(0, i + 1)));
                i += 1;
            }
            assert(thens@.subrange(0, thens@.len() as int) =~= thens@);
            match elsestat {
                Some(e) => collect_floats_stat(&**e, names),
                None => {},
            }
            assert(names@ =~= old(names)@ + spec_floats_stat(*stat));
        },
        TypedStat::While { condition, block, .. } => {
            collect_floats_exp(condition, names);
            collect_floats_stat(&**block, names);
            assert(names@ =~= old(names)@ + spec_floats_stat(*stat));
        },
        TypedStat::Repeat { block, condition, .. } => {
            collect_floats_stat(&**block, names);
            collect_floats_exp(condition, names);
            assert(names@ =~= old(names)@ + spec_floats_stat(*stat));
        },
        TypedStat::ForIn { container, block, .. } => {
            collect_floats_exp(container, names);
            collect_floats_stat(&**block, names);
            assert(names@ =~= old(names)@ + spec_floats_stat(*stat));
        },
        TypedStat::For { start, finish, inc, block, .. } => {
            collect_floats_exp(start, names);
            collect_floats_exp(finish, names);
            collect_floats_exp(&**inc, names);
            collect_floats_stat(&**block, names);
            assert(names@ =~= old(names)@ + spec_floats_stat(*stat));
        },
        TypedStat::Assign { target, value, .. } => {
            collect_floats_lvalue(target, names);
            collect_floats_exp(value, names);
            assert(names@ =~= old(names)@ + spec_floats_stat(*stat));
        },
        TypedStat::Break { .. } | TypedStat::Continue { .. } => {
            assert(names@ =~= old(names)@ + spec_floats_stat(*stat));
        },
    }
}

/// Float literals of the functions of a program, in program order.
pub open spec fn spec_floats_program(p: Seq<TypedTopLevel>) -> Seq<u64>
    decreases p.len(),
{
    if p.len() == 0 {
        Seq::empty()
    } else {
        spec_floats_program(p.drop_last()) + match p.last() {
            TypedTopLevel::Func { body, .. } => spec_floats_stat(*body),
            _ => Seq::empty(),
        }
    }
}

/// The bit patterns of the float literals of a program, in program order
/// (with repetitions).
pub fn float_literals(program: &TypedProgram) -> (r: Vec<u64>)
    ensures
        r@ == spec_floats_program(program@),
{
    let mut names: Vec<u64> = Vec::new();
    let mut i: usize = 0;
    while i < program.len()
        invariant
            i <= program@.len(),
            names@ == spec_floats_program(program@.subrange(0, i as int)),
        decreases program@.len() - i,
    {
        proof {
            assert(program@.subrange(0, i + 1).drop_last() =~= program@.subrange(0, i as int));
            assert(program@.subrange(0, i + 1).last() == program@[i as int]);
        }
        let ghost before = names@;
        match &program[i] {
            TypedTopLevel::Func { body, .. } => collect_floats_stat(&**body, &mut names),
            _ => {
                assert(names@ =~= before + Seq::<u64>::empty());
            },
        }
        i += 1;
    }
    proof { assert(program@.subrange(0, program@.len() as int) =~= program@); }
    names
}

} // verus!
