//! The typed tree that the checker produces and the back end consumes, and
//! the side indexes (uses and scopes) that an editor consumes.
use vstd::prelude::*;
use crate::ast::Loc;
use crate::text::{decimal, usize_to_string};
use crate::types::Type;

verus! {

/// A semantic error with its position.
#[derive(Debug, PartialEq)]
pub struct CheckError {
    pub message: String,
    pub loc: Loc,
}

impl CheckError {
    /// The error as the compiler reports it:
    /// `erro de tipo (linha L, coluna C): mensagem`.
    pub fn describe(&self) -> (r: String)
        ensures
            r@ == "erro de tipo (linha "@ + decimal(self.loc.line as nat) + ", coluna "@ + decimal(
                self.loc.col as nat,
            ) + "): "@ + self.message@,
    {
        let mut s = String::from_str("erro de tipo (linha ");
        s.append(usize_to_string(self.loc.line).as_str());
        s.append(", coluna ");
        s.append(usize_to_string(self.loc.col).as_str());
        s.append("): ");
        s.append(self.message.as_str());
        s
    }
}

/// A checked program: one entry per accepted top-level declaration.
pub type TypedProgram = Vec<TypedTopLevel>;

#[derive(Debug, PartialEq)]
pub enum TypedTopLevel {
    Func {
        loc: Loc,
        islocal: bool,
        name: String,
        params: Vec<(String, Type)>,
        rettypes: Vec<Type>,
        body: Box<TypedStat>,
    },
    Record { loc: Loc, name: String, fields: Vec<(String, Type)> },
    /// `foreign function`: declared for the linker, without a body.
    ForeignFunc { loc: Loc, name: String, params: Vec<(String, Type)>, rettypes: Vec<Type> },
}

#[derive(Debug, PartialEq)]
pub enum TypedStat {
    Block { loc: Loc, stats: Vec<TypedStat> },
    Decl {
        loc: Loc,
        name: String,
        ty: Type,
        value: TypedExp,
        /// Identity of the declaration, used by the mutability fix-up.
        decl_id: usize,
        /// `true` when some assignment reaches this declaration.
        mutable: bool,
    },
    /// `local a, b = ...`
    DeclMulti { loc: Loc, targets: Vec<TypedDeclTarget>, values: TypedMultiValues },
    /// `a, b = ...`
    AssignMulti { loc: Loc, targets: Vec<TypedLValue>, values: TypedMultiValues },
    Call { loc: Loc, call: TypedExp },
    Return { loc: Loc, exps: Vec<TypedExp> },
    If { loc: Loc, thens: Vec<TypedThen>, elsestat: Option<Box<TypedStat>> },
    While { loc: Loc, condition: TypedExp, block: Box<TypedStat> },
    Repeat { loc: Loc, block: Box<TypedStat>, condition: TypedExp },
    For {
        loc: Loc,
        name: String,
        ty: Type,
        start: TypedExp,
        finish: TypedExp,
        /// Always present: `1` (or `1.0`) when the source omits it.
        inc: Box<TypedExp>,
        block: Box<TypedStat>,
    },
    /// `for`-in over an array or a map; the body never mutates the
    /// container.
    ForIn { loc: Loc, kind: TypedForInKind, container: TypedExp, block: Box<TypedStat> },
    Assign { loc: Loc, target: TypedLValue, value: TypedExp },
    Break { loc: Loc },
    Continue { loc: Loc },
}

/// Position of a checked statement.
pub open spec fn spec_typed_stat_loc(ts: TypedStat) -> Loc {
    match ts {
        TypedStat::Block { loc, .. } => loc,
        TypedStat::Decl { loc, .. } => loc,
        TypedStat::DeclMulti { loc, .. } => loc,
        TypedStat::AssignMulti { loc, .. } => loc,
        TypedStat::Call { loc, .. } => loc,
        TypedStat::Return { loc, .. } => loc,
        TypedStat::If { loc, .. } => loc,
        TypedStat::While { loc, .. } => loc,
        TypedStat::Repeat { loc, .. } => loc,
        TypedStat::For { loc, .. } => loc,
        TypedStat::ForIn { loc, .. } => loc,
        TypedStat::Assign { loc, .. } => loc,
        TypedStat::Break { loc } => loc,
        TypedStat::Continue { loc } => loc,
    }
}

/// A checked assignment target.
#[derive(Debug, PartialEq)]
pub enum TypedLValue {
    Name(String),
    Index { base: Box<TypedExp>, index: Box<TypedExp> },
    Field { base: Box<TypedExp>, name: String },
}

/// The two forms of `for`-in, with the types of the bound names.
#[derive(Debug, PartialEq)]
pub enum TypedForInKind {
    /// `for x in v do` over `{T}`.
    Array { name: String, elem_ty: Type },
    /// `for k, v in m do` over `{K: V}`.
    Dict { key_name: String, key_ty: Type, value_name: String, value_ty: Type },
}

/// One target of `local a, b = ...`.
#[derive(Debug, PartialEq)]
pub struct TypedDeclTarget {
    pub loc: Loc,
    pub name: String,
    pub ty: Type,
    pub decl_id: usize,
    pub mutable: bool,
}

/// Right-hand side of a multiple declaration or assignment.
#[derive(Debug, PartialEq)]
pub enum TypedMultiValues {
    /// One call whose signature returns exactly as many values as there are
    /// targets.
    Call(TypedExp),
    /// One expression per target, in order.
    List(Vec<TypedExp>),
}

/// A checked `then` branch.
#[derive(Debug, PartialEq)]
pub struct TypedThen {
    pub loc: Loc,
    pub condition: TypedExp,
    pub block: TypedStat,
    /// Names that the condition narrowed from `T?` to `T` inside `block`.
    pub narrowed: Vec<String>,
}

#[derive(Debug, PartialEq)]
pub struct TypedExp {
    pub loc: Loc,
    pub ty: Type,
    pub kind: TypedExpKind,
}

/// What a call resolves to.
#[derive(Debug, PartialEq)]
pub enum Callee {
    Direct(String),
    /// A function declared by `foreign function`.
    Foreign(String),
    Module { module: String, name: String },
    Method { recv: Box<TypedExp>, module: String, name: String },
}

#[derive(Debug, PartialEq)]
pub enum TypedExpKind {
    Nil,
    Bool(bool),
    Integer(i64),
    /// Bit pattern of an `f64`.
    Float(u64),
    String(String),
    Var(String),
    Call { callee: Callee, args: Vec<TypedExp> },
    Concat(Vec<TypedExp>),
    Binop { op: BinOp, lhs: Box<TypedExp>, rhs: Box<TypedExp> },
    Unop { op: UnOp, exp: Box<TypedExp> },
    Index { base: Box<TypedExp>, index: Box<TypedExp> },
    Field { base: Box<TypedExp>, name: String },
    ArrayLit(Vec<TypedExp>),
    RecordLit { ty_name: String, fields: Vec<(String, TypedExp)> },
    MapLit(Vec<(TypedExp, TypedExp)>),
    /// First result of a call with several results.
    Adjust(Box<TypedExp>),
    /// The `index`-th (from 0) result of a call.
    Extra { exp: Box<TypedExp>, index: usize },
    /// Injection `T -> T?`.
    SomeOf(Box<TypedExp>),
    /// `as` conversion; the enclosing `ty` is the target type.
    Cast { kind: CastKind, exp: Box<TypedExp> },
}

/// Which conversion an `as` performs.
#[derive(Clone, Copy, Debug, PartialEq, Eq, Structural)]
pub enum CastKind {
    IntToFloat,
    FloatToInt,
    ToValue,
    FromValue,
}

/// A resolved binary operator.
#[derive(Clone, Copy, Debug, PartialEq, Eq, Structural)]
pub enum BinOp {
    Add,
    Sub,
    Mul,
    Div,
    Mod,
    Pow,
    /// `//`, floor division.
    IDiv,
    Eq,
    Ne,
    Lt,
    Gt,
    Le,
    Ge,
    And,
    Or,
    BAnd,
    BOr,
    /// Binary `~`: exclusive or.
    BXor,
    Shl,
    Shr,
}

/// A resolved unary operator.
#[derive(Clone, Copy, Debug, PartialEq, Eq, Structural)]
pub enum UnOp {
    Neg,
    Not,
    Len,
    /// Unary `~`: bitwise not.
    BNot,
}

/// A name occurrence resolved by the checker, for hover and
/// go-to-definition.
#[derive(Debug, PartialEq)]
pub struct SymbolUse {
    pub use_loc: Loc,
    pub def_loc: Loc,
    pub name: String,
    pub ty_name: String,
}

/// A symbol in scope, for completion.  `module` is the real module name
/// when the symbol is an imported module.
#[derive(Debug, PartialEq)]
pub struct ScopedSymbol {
    pub name: String,
    pub ty_name: String,
    pub module: Option<String>,
}

/// The symbols visible in a block, taken when the block closes.
#[derive(Debug, PartialEq)]
pub struct ScopeSnapshot {
    pub start: Loc,
    pub end: Loc,
    pub symbols: Vec<ScopedSymbol>,
}

/// Everything a successful check produces.
#[derive(Debug, PartialEq)]
pub struct CheckedProgram {
    pub program: TypedProgram,
    pub uses: Vec<SymbolUse>,
    pub scopes: Vec<ScopeSnapshot>,
}

} // verus!
