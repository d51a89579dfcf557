//! Syntax tree of a Titan program, as the parser produces it.
//!
//! A program is a list of top-level declarations (there is no `Program`
//! node).  Float literals are carried as the IEEE-754 bit pattern of the
//! value (`f64::to_bits`), so the tree holds only plain values.
use vstd::prelude::*;

verus! {

/// Position of a node in the source text.
#[derive(Clone, Copy, Debug, PartialEq, Eq, Structural)]
pub struct Loc {
    pub line: usize,
    pub col: usize,
}

/// Type annotations as written in the source.
#[derive(Debug, PartialEq)]
pub enum Type {
    TypeNil { loc: Loc },
    TypeBoolean { loc: Loc },
    TypeInteger { loc: Loc },
    TypeFloat { loc: Loc },
    TypeString { loc: Loc },
    TypeValue { loc: Loc },
    TypeQualName { loc: Loc, module: String, name: String },
    TypeName { loc: Loc, name: String },
    TypeArray { loc: Loc, subtype: Box<Type> },
    TypeMap { loc: Loc, keystype: Box<Type>, valuestype: Box<Type> },
    TypeFunction { loc: Loc, argtypes: Vec<Type>, rettypes: Vec<Type> },
    TypeOption { loc: Loc, basetype: Box<Type> },
}

/// Top-level declarations of a file.
#[derive(Debug, PartialEq)]
pub enum TopLevel {
    TopLevelMethod {
        loc: Loc,
        class: String,
        name: String,
        params: Vec<Decl>,
        rettypes: Vec<Type>,
        block: Stat,
    },
    TopLevelStatic {
        loc: Loc,
        class: String,
        name: String,
        params: Vec<Decl>,
        rettypes: Vec<Type>,
        block: Stat,
    },
    TopLevelFunc {
        loc: Loc,
        islocal: bool,
        name: String,
        params: Vec<Decl>,
        rettypes: Vec<Type>,
        block: Stat,
    },
    TopLevelVar { loc: Loc, islocal: bool, decl: Decl, value: Exp },
    TopLevelRecord { loc: Loc, name: String, fields: Vec<Decl> },
    TopLevelImport { loc: Loc, localname: String, modname: String },
    TopLevelForeignImport { loc: Loc, localname: String, headername: String },
    /// `foreign function abs(n: integer): integer` — a symbol provided by
    /// the C linker; it has no body.
    TopLevelForeignFunc { loc: Loc, name: String, params: Vec<Decl>, rettypes: Vec<Type> },
}

/// A typed name declaration.  `ty` is `None` when no type was written;
/// `option` marks `local x? = ...`.
#[derive(Debug, PartialEq)]
pub struct Decl {
    pub loc: Loc,
    pub name: String,
    pub ty: Option<Type>,
    pub option: bool,
}

/// Statements.
#[derive(Debug, PartialEq)]
pub enum Stat {
    StatBlock { loc: Loc, stats: Vec<Stat> },
    StatWhile { loc: Loc, condition: Exp, block: Box<Stat> },
    StatRepeat { loc: Loc, block: Box<Stat>, condition: Exp },
    StatIf { loc: Loc, thens: Vec<Then>, elsestat: Option<Box<Stat>> },
    StatFor {
        loc: Loc,
        decl: Box<Decl>,
        start: Box<Exp>,
        finish: Box<Exp>,
        inc: Option<Box<Exp>>,
        block: Box<Stat>,
    },
    /// `for x in v do` / `for k, v in m do`.
    StatForIn { loc: Loc, decls: Vec<Decl>, exp: Exp, block: Box<Stat> },
    StatAssign { loc: Loc, vars: Vec<Var>, exps: Vec<Exp> },
    StatDecl { loc: Loc, decls: Vec<Decl>, exps: Vec<Exp> },
    StatCall { loc: Loc, callexp: Exp },
    StatReturn { loc: Loc, exps: Vec<Exp> },
    StatBreak { loc: Loc },
    StatContinue { loc: Loc },
}

/// One `then` branch of an `if`.
#[derive(Debug, PartialEq)]
pub struct Then {
    pub loc: Loc,
    pub condition: Exp,
    pub block: Stat,
}

/// Assignable places.
#[derive(Debug, PartialEq)]
pub enum Var {
    VarName { loc: Loc, name: String },
    VarBracket { loc: Loc, exp1: Box<Exp>, exp2: Box<Exp> },
    VarDot { loc: Loc, exp: Box<Exp>, name: String },
}

/// Expressions.
#[derive(Debug, PartialEq)]
pub enum Exp {
    ExpNil { loc: Loc },
    ExpBool { loc: Loc, value: bool },
    ExpInteger { loc: Loc, value: i64 },
    /// A float literal, as the bit pattern of its `f64` value.
    ExpFloat { loc: Loc, bits: u64 },
    ExpString { loc: Loc, value: String },
    ExpInitList { loc: Loc, fields: Vec<Field> },
    ExpCall { loc: Loc, exp: Box<Exp>, args: Args },
    ExpVar { loc: Loc, var: Box<Var> },
    ExpUnop { loc: Loc, op: String, exp: Box<Exp> },
    ExpConcat { loc: Loc, exps: Vec<Exp> },
    ExpBinop { loc: Loc, lhs: Box<Exp>, op: String, rhs: Box<Exp> },
    ExpCast { loc: Loc, exp: Box<Exp>, target: Type },
    /// Keeps only the first result of a call.
    ExpAdjust { loc: Loc, exp: Box<Exp> },
    /// The `index`-th (> 1) result of a call.
    ExpExtra { loc: Loc, exp: Box<Exp>, index: usize, ty: Option<Type> },
}

/// Call arguments.
#[derive(Debug, PartialEq)]
pub enum Args {
    ArgsFunc { loc: Loc, args: Vec<Exp> },
    ArgsMethod { loc: Loc, method: String, args: Vec<Exp> },
}

/// Key of an init-list field.
#[derive(Debug, PartialEq)]
pub enum FieldName {
    /// Positional: goes into an array.
    Positional,
    /// `x = 1`: a record field.
    Name(String),
    /// `["a"] = 1`: a map entry.
    Key(Box<Exp>),
}

/// A field of an init list.
#[derive(Debug, PartialEq)]
pub struct Field {
    pub loc: Loc,
    pub name: FieldName,
    pub exp: Exp,
}

/// Position of a statement.
pub fn stat_loc(stat: &Stat) -> (r: Loc)
    ensures r == spec_stat_loc(*stat),
{
    match stat {
        Stat::StatBlock { loc, .. } => *loc,
        Stat::StatWhile { loc, .. } => *loc,
        Stat::StatRepeat { loc, .. } => *loc,
        Stat::StatIf { loc, .. } => *loc,
        Stat::StatFor { loc, .. } => *loc,
        Stat::StatForIn { loc, .. } => *loc,
        Stat::StatAssign { loc, .. } => *loc,
        Stat::StatDecl { loc, .. } => *loc,
        Stat::StatCall { loc, .. } => *loc,
        Stat::StatReturn { loc, .. } => *loc,
        Stat::StatBreak { loc } => *loc,
        Stat::StatContinue { loc } => *loc,
    }
}

pub open spec fn spec_stat_loc(stat: Stat) -> Loc {
    match stat {
        Stat::StatBlock { loc, .. } => loc,
        Stat::StatWhile { loc, .. } => loc,
        Stat::StatRepeat { loc, .. } => loc,
        Stat::StatIf { loc, .. } => loc,
        Stat::StatFor { loc, .. } => loc,
        Stat::StatForIn { loc, .. } => loc,
        Stat::StatAssign { loc, .. } => loc,
        Stat::StatDecl { loc, .. } => loc,
        Stat::StatCall { loc, .. } => loc,
        Stat::StatReturn { loc, .. } => loc,
        Stat::StatBreak { loc } => loc,
        Stat::StatContinue { loc } => loc,
    }
}

pub open spec fn spec_exp_loc(exp: Exp) -> Loc {
    match exp {
        Exp::ExpNil { loc } => loc,
        Exp::ExpBool { loc, .. } => loc,
        Exp::ExpInteger { loc, .. } => loc,
        Exp::ExpFloat { loc, .. } => loc,
        Exp::ExpString { loc, .. } => loc,
        Exp::ExpInitList { loc, .. } => loc,
        Exp::ExpCall { loc, .. } => loc,
        Exp::ExpVar { loc, .. } => loc,
        Exp::ExpUnop { loc, .. } => loc,
        Exp::ExpConcat { loc, .. } => loc,
        Exp::ExpBinop { loc, .. } => loc,
        Exp::ExpCast { loc, .. } => loc,
        Exp::ExpAdjust { loc, .. } => loc,
        Exp::ExpExtra { loc, .. } => loc,
    }
}

/// Position of an expression.
pub fn exp_loc(exp: &Exp) -> (r: Loc)
    ensures r == spec_exp_loc(*exp),
{
    match exp {
        Exp::ExpNil { loc } => *loc,
        Exp::ExpBool { loc, .. } => *loc,
        Exp::ExpInteger { loc, .. } => *loc,
        Exp::ExpFloat { loc, .. } => *loc,
        Exp::ExpString { loc, .. } => *loc,
        Exp::ExpInitList { loc, .. } => *loc,
        Exp::ExpCall { loc, .. } => *loc,
        Exp::ExpVar { loc, .. } => *loc,
        Exp::ExpUnop { loc, .. } => *loc,
        Exp::ExpConcat { loc, .. } => *loc,
        Exp::ExpBinop { loc, .. } => *loc,
        Exp::ExpCast { loc, .. } => *loc,
        Exp::ExpAdjust { loc, .. } => *loc,
        Exp::ExpExtra { loc, .. } => *loc,
    }
}

/// Position of an assignment target.
pub fn var_loc(var: &Var) -> (r: Loc)
    ensures
        r == match *var {
            Var::VarName { loc, .. } => loc,
            Var::VarBracket { loc, .. } => loc,
            Var::VarDot { loc, .. } => loc,
        },
{
    match var {
        Var::VarName { loc, .. } => *loc,
        Var::VarBracket { loc, .. } => *loc,
        Var::VarDot { loc, .. } => *loc,
    }
}

} // verus!
