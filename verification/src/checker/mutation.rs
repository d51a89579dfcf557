//! Syntactic scan for writes to the container of a `for`-in inside its
//! body.  Two things count as mutating a composite: writing to it or
//! through it (`v = ...`, `v[i] = ...`, `v.campo = ...`), and passing it as
//! a call argument, since the back end passes composites by `&mut`.
use vstd::prelude::*;
use crate::ast::{spec_exp_loc, exp_loc, var_loc, Args, Exp, Field, FieldName, Loc, Stat, Then, Var};
use crate::checker::names::{
    root_exp_var_name, root_var_name, spec_root_exp_var_name, spec_root_var_name,
};
use crate::text::str_eq;

verus! {

broadcast use vstd::std_specs::vec::axiom_vec_decreases_to_view;

pub open spec fn var_pos(var: Var) -> Loc {
    match var {
        Var::VarName { loc, .. } => loc,
        Var::VarBracket { loc, .. } => loc,
        Var::VarDot { loc, .. } => loc,
    }
}

/// Positions, in traversal order, where the statement mutates `c`.
pub open spec fn spec_mut_stat(stat: Stat, c: Seq<char>) -> Seq<Loc>
    decreases stat,
{
    match stat {
        Stat::StatBlock { stats, .. } => spec_mut_stats(stats@, c),
        Stat::StatWhile { condition, block, .. } => spec_mut_exp(condition, c) + spec_mut_stat(*block, c),
        Stat::StatRepeat { block, condition, .. } => spec_mut_stat(*block, c) + spec_mut_exp(condition, c),
        Stat::StatIf { thens, elsestat, .. } => spec_mut_thens(thens@, c) + match elsestat {
            Some(e) => spec_mut_stat(*e, c),
            None => Seq::empty(),
        },
        Stat::StatFor { start, finish, inc, block, .. } => spec_mut_exp(*start, c) + spec_mut_exp(*finish, c)
            + match inc {
            Some(i) => spec_mut_exp(*i, c),
            None => Seq::empty(),
        } + spec_mut_stat(*block, c),
        Stat::StatForIn { exp, block, .. } => spec_mut_exp(exp, c) + spec_mut_stat(*block, c),
        Stat::StatAssign { vars, exps, .. } => spec_mut_targets(vars@, c) + spec_mut_exps(exps@, c),
        Stat::StatDecl { exps, .. } => spec_mut_exps(exps@, c),
        Stat::StatCall { callexp, .. } => spec_mut_exp(callexp, c),
        Stat::StatReturn { exps, .. } => spec_mut_exps(exps@, c),
        Stat::StatBreak { .. } => Seq::empty(),
        Stat::StatContinue { .. } => Seq::empty(),
    }
}

pub open spec fn spec_mut_stats(stats: Seq<Stat>, c: Seq<char>) -> Seq<Loc>
    decreases stats,
{
    if stats.len() == 0 {
        Seq::empty()
    } else {
        spec_mut_stats(stats.drop_last(), c) + spec_mut_stat(stats.last(), c)
    }
}

pub open spec fn spec_mut_thens(thens: Seq<Then>, c: Seq<char>) -> Seq<Loc>
    decreases thens,
{
    if thens.len() == 0 {
        Seq::empty()
    } else {
        spec_mut_thens(thens.drop_last(), c) + spec_mut_exp(thens.last().condition, c)
            + spec_mut_stat(thens.last().block, c)
    }
}

/// Assignment targets rooted at `c`.
pub open spec fn spec_mut_targets(vars: Seq<Var>, c: Seq<char>) -> Seq<Loc>
    decreases vars.len(),
{
    if vars.len() == 0 {
        Seq::empty()
    } else {
        spec_mut_targets(vars.drop_last(), c) + if spec_root_var_name(vars.last()) == Some(c) {
            seq![var_pos(vars.last())]
        } else {
            Seq::empty()
        }
    }
}

pub open spec fn spec_mut_exps(exps: Seq<Exp>, c: Seq<char>) -> Seq<Loc>
    decreases exps,
{
    if exps.len() == 0 {
        Seq::empty()
    } else {
        spec_mut_exps(exps.drop_last(), c) + spec_mut_exp(exps.last(), c)
    }
}

/// Call arguments: an argument rooted at `c` is a mutation, then the
/// argument itself is scanned.
pub open spec fn spec_mut_args(args: Seq<Exp>, c: Seq<char>) -> Seq<Loc>
    decreases args,
{
    if args.len() == 0 {
        Seq::empty()
    } else {
        spec_mut_args(args.drop_last(), c) + (if spec_root_exp_var_name(args.last()) == Some(c) {
            seq![spec_exp_loc(args.last())]
        } else {
            Seq::empty()
        }) + spec_mut_exp(args.last(), c)
    }
}

pub open spec fn spec_mut_fields(fields: Seq<Field>, c: Seq<char>) -> Seq<Loc>
    decreases fields,
{
    if fields.len() == 0 {
        Seq::empty()
    } else {
        spec_mut_fields(fields.drop_last(), c) + match fields.last().name {
            FieldName::Key(k) => spec_mut_exp(*k, c),
            _ => Seq::empty(),
        } + spec_mut_exp(fields.last().exp, c)
    }
}

pub open spec fn spec_mut_exp(exp: Exp, c: Seq<char>) -> Seq<Loc>
    decreases exp,
{
    match exp {
        Exp::ExpCall { exp: f, args, .. } => spec_mut_exp(*f, c) + match args {
            Args::ArgsFunc { args, .. } => spec_mut_args(args@, c),
            Args::ArgsMethod { args, .. } => spec_mut_args(args@, c),
        },
        Exp::ExpVar { var, .. } => spec_mut_var(*var, c),
        Exp::ExpUnop { exp, .. } => spec_mut_exp(*exp, c),
        Exp::ExpCast { exp, .. } => spec_mut_exp(*exp, c),
        Exp::ExpAdjust { exp, .. } => spec_mut_exp(*exp, c),
        Exp::ExpExtra { exp, .. } => spec_mut_exp(*exp, c),
        Exp::ExpBinop { lhs, rhs, .. } => spec_mut_exp(*lhs, c) + spec_mut_exp(*rhs, c),
        Exp::ExpConcat { exps, .. } => spec_mut_exps(exps@, c),
        Exp::ExpInitList { fields, .. } => spec_mut_fields(fields@, c),
        _ => Seq::empty(),
    }
}

pub open spec fn spec_mut_var(var: Var, c: Seq<char>) -> Seq<Loc>
    decreases var,
{
    match var {
        Var::VarName { .. } => Seq::empty(),
        Var::VarBracket { exp1, exp2, .. } => spec_mut_exp(*exp1, c) + spec_mut_exp(*exp2, c),
        Var::VarDot { exp, .. } => spec_mut_exp(*exp, c),
    }
}

fn is_root(r: Option<String>, container: &str) -> (b: bool)
    ensures
        b == (match r {
            Some(s) => s@ == container@,
            None => false,
        }),
{
    match r {
        Some(s) => str_eq(s.as_str(), container),
        None => false,
    }
}

/// Appends to `ofensas` each position where `stat` mutates `container`.
#[verifier::loop_isolation(false)]
pub fn coleta_mutacoes(stat: &Stat, container: &str, ofensas: &mut Vec<Loc>)
    ensures
        final(ofensas)@ == old(ofensas)@ + spec_mut_stat(*stat, container@),
    decreases stat,
{
    let ghost c = container@;
    match stat {
        Stat::StatBlock { stats, .. } => {
            let mut i: usize = 0;
            while i < stats.len()
                invariant
                    i <= stats@.len(),
                    ofensas@ == old(ofensas)@ + spec_mut_stats(stats@.subrange(0, i as int), c),
                decreases stats@.len() - i,
            {
                proof { assert(stats@.subrange(0, i + 1).drop_last() =~= stats@.subrange(0, i as int)); }
                coleta_mutacoes(&stats[i], container, ofensas);
                i += 1;
            }
            assert(stats@.subrange(0, stats@.len() as int) =~= stats@);
        },
        Stat::StatWhile { condition, block, .. } => {
            coleta_mutacoes_exp(condition, container, ofensas);
            coleta_mutacoes(&**block, container, ofensas);
        },
        Stat::StatRepeat { block, condition, .. } => {
            coleta_mutacoes(&**block, container, ofensas);
            coleta_mutacoes_exp(condition, container, ofensas);
        },
        Stat::StatIf { thens, elsestat, .. } => {
            let mut i: usize = 0;
            while i < thens.len()
                invariant
                    i <= thens@.len(),
                    ofensas@ == old(ofensas)@ + spec_mut_thens(thens@.subrange(0, i as int), c),
                decreases thens@.len() - i,
            {
                proof { assert(thens@.subrange(0, i + 1).drop_last() =~= thens@.subrange(0, i as int)); }
                coleta_mutacoes_exp(&thens[i].condition, container, ofensas);
                coleta_mutacoes(&thens[i].block, container, ofensas);
                i += 1;
            }
            assert(thens@.subrange(0, thens@.len() as int) =~= thens@);
            match elsestat {
                Some(e) => coleta_mutacoes(&**e, container, ofensas),
                None => {},
            }
        },
        Stat::StatFor { start, finish, inc, block, .. } => {
            coleta_mutacoes_exp(&**start, container, ofensas);
            coleta_mutacoes_exp(&**finish, container, ofensas);
            match inc {
                Some(i) => coleta_mutacoes_exp(&**i, container, ofensas),
                None => {},
            }
            coleta_mutacoes(&**block, container, ofensas);
        },
        Stat::StatForIn { exp, block, .. } => {
            coleta_mutacoes_exp(exp, container, ofensas);
            coleta_mutacoes(&**block, container, ofensas);
        },
        Stat::StatAssign { vars, exps, .. } => {
            let mut i: usize = 0;
            while i < vars.len()
                invariant
                    i <= vars@.len(),
                    ofensas@ == old(ofensas)@ + spec_mut_targets(vars@.subrange(0, i as int), c),
                decreases vars@.len() - i,
            {
                proof { assert(vars@.subrange(0, i + 1).drop_last() =~= vars@.subrange(0, i as int)); }
                if is_root(root_var_name(&vars[i]), container) {
                    ofensas.push(var_loc(&vars[i]));
                }
                i += 1;
            }
            assert(vars@.subrange(0, vars@.len() as int) =~= vars@);
            coleta_mutacoes_exps(exps, container, ofensas);
        },
        Stat::StatDecl { exps, .. } => coleta_mutacoes_exps(exps, container, ofensas),
        Stat::StatCall { callexp, .. } => coleta_mutacoes_exp(callexp, container, ofensas),
        Stat::StatReturn { exps, .. } => coleta_mutacoes_exps(exps, container, ofensas),
        Stat::StatBreak { .. } => {},
        Stat::StatContinue { .. } => {},
    }
}

#[verifier::loop_isolation(false)]
fn coleta_mutacoes_exps(exps: &Vec<Exp>, container: &str, ofensas: &mut Vec<Loc>)
    ensures
        final(ofensas)@ == old(ofensas)@ + spec_mut_exps(exps@, container@),
    decreases exps,
{
    let mut i: usize = 0;
    while i < exps.len()
        invariant
            i <= exps@.len(),
            ofensas@ == old(ofensas)@ + spec_mut_exps(exps@.subrange(0, i as int), container@),
        decreases exps@.len() - i,
    {
        proof { assert(exps@.subrange(0, i + 1).drop_last() =~= exps@.subrange(0, i as int)); }
        coleta_mutacoes_exp(&exps[i], container, ofensas);
        i += 1;
    }
    assert(exps@.subrange(0, exps@.len() as int) =~= exps@);
}

#[verifier::loop_isolation(false)]
fn coleta_mutacoes_args(args: &Vec<Exp>, container: &str, ofensas: &mut Vec<Loc>)
    ensures
        final(ofensas)@ == old(ofensas)@ + spec_mut_args(args@, container@),
    decreases args,
{
    let mut i: usize = 0;
    while i < args.len()
        invariant
            i <= args@.len(),
            ofensas@ == old(ofensas)@ + spec_mut_args(args@.subrange(0, i as int), container@),
        decreases args@.len() - i,
    {
        proof { assert(args@.subrange(0, i + 1).drop_last() =~= args@.subrange(0, i as int)); }
        if is_root(root_exp_var_name(&args[i]), container) {
            ofensas.push(exp_loc(&args[i]));
        }
        coleta_mutacoes_exp(&args[i], container, ofensas);
        i += 1;
    }
    assert(args@.subrange(0, args@.len() as int) =~= args@);
}

/// The expression half of the scan: only passing the container as an
/// argument mutates it; reading `v[i]` does not.
#[verifier::loop_isolation(false)]
pub fn coleta_mutacoes_exp(exp: &Exp, container: &str, ofensas: &mut Vec<Loc>)
    ensures
        final(ofensas)@ == old(ofensas)@ + spec_mut_exp(*exp, container@),
    decreases exp,
{
    match exp {
        Exp::ExpCall { exp: f, args, .. } => {
            coleta_mutacoes_exp(&**f, container, ofensas);
            match args {
                Args::ArgsFunc { args, .. } => coleta_mutacoes_args(args, container, ofensas),
                Args::ArgsMethod { args, .. } => coleta_mutacoes_args(args, container, ofensas),
            }
        },
        Exp::ExpVar { var, .. } => coleta_mutacoes_var(&**var, container, ofensas),
        Exp::ExpUnop { exp, .. } => coleta_mutacoes_exp(&**exp, container, ofensas),
        Exp::ExpCast { exp, .. } => coleta_mutacoes_exp(&**exp, container, ofensas),
        Exp::ExpAdjust { exp, .. } => coleta_mutacoes_exp(&**exp, container, ofensas),
        Exp::ExpExtra { exp, .. } => coleta_mutacoes_exp(&**exp, container, ofensas),
        Exp::ExpBinop { lhs, rhs, .. } => {
            coleta_mutacoes_exp(&**lhs, container, ofensas);
            coleta_mutacoes_exp(&**rhs, container, ofensas);
        },
        Exp::ExpConcat { exps, .. } => coleta_mutacoes_exps(exps, container, ofensas),
        Exp::ExpInitList { fields, .. } => {
            let mut i: usize = 0;
            while i < fields.len()
                invariant
                    i <= fields@.len(),
                    ofensas@ == old(ofensas)@ + spec_mut_fields(fields@.subrange(0, i as int), container@),
                decreases fields@.len() - i,
            {
                proof { assert(fields@.subrange(0, i + 1).drop_last() =~= fields@.subrange(0, i as int)); }
                match &fields[i].name {
                    FieldName::Key(k) => coleta_mutacoes_exp(&**k, container, ofensas),
                    _ => {},
                }
                coleta_mutacoes_exp(&fields[i].exp, container, ofensas);
                i += 1;
            }
            assert(fields@.subrange(0, fields@.len() as int) =~= fields@);
        },
        _ => {},
    }
}

fn coleta_mutacoes_var(var: &Var, container: &str, ofensas: &mut Vec<Loc>)
    ensures
        final(ofensas)@ == old(ofensas)@ + spec_mut_var(*var, container@),
    decreases var,
{
    match var {
        Var::VarName { .. } => {},
        Var::VarBracket { exp1, exp2, .. } => {
            coleta_mutacoes_exp(&**exp1, container, ofensas);
            coleta_mutacoes_exp(&**exp2, container, ofensas);
        },
        Var::VarDot { exp, .. } => coleta_mutacoes_exp(&**exp, container, ofensas),
    }
}

} // verus!
