//! What the checker answers on operator expressions: the type it gives, or
//! exactly the errors it reports, as a function of the scopes alone.
use vstd::prelude::*;
use crate::ast::{spec_exp_loc, Args, Decl, Exp, Loc, Var};
use crate::text::decimal;
use crate::checker::names::{spec_binop_from_source, spec_is_composite, spec_is_numeric, spec_numeric_result, spec_type_name};
use crate::checker::resolve::spec_widens;
use crate::checker::rules::{spec_concat_operand, spec_unop_from_source};
use crate::checker::symtab::SymTab;
use crate::checker::typed::{BinOp, CheckError, TypedExp, TypedExpKind, UnOp};
use crate::types::{compatible_spec, equals_spec, TypeModel};

verus! {

/// An error as its message and its location.
pub open spec fn error_view(e: CheckError) -> (Seq<char>, Loc) {
    (e.message@, e.loc)
}

/// A list of errors as messages and locations.
pub open spec fn errors_view(es: Seq<CheckError>) -> Seq<(Seq<char>, Loc)> {
    es.map_values(|e: CheckError| error_view(e))
}

pub proof fn lemma_errors_view_push(es: Seq<CheckError>, e: CheckError)
    ensures
        errors_view(es.push(e)) == errors_view(es).push(error_view(e)),
{
    assert(errors_view(es.push(e)) =~= errors_view(es).push(error_view(e)));
}

pub proof fn lemma_push_is_concat<A>(s: Seq<A>, x: A)
    ensures
        s.push(x) == s + seq![x],
{
    assert(s.push(x) =~= s + seq![x]);
}

pub proof fn lemma_concat_assoc<A>(a: Seq<A>, b: Seq<A>, c: Seq<A>)
    ensures
        a + b + c == a + (b + c),
{
    assert(a + b + c =~= a + (b + c));
}

/// Expressions built from literals, names, and unary and binary operators.
pub open spec fn is_operator_exp(e: Exp) -> bool
    decreases e, 0int,
{
    match e {
        Exp::ExpConcat { exps, .. } => {
            proof { assert(decreases_to!(exps => exps@)); }
            all_operator_exps(exps@, exps@.len() as int)
        },
        Exp::ExpNil { .. } => true,
        Exp::ExpBool { .. } => true,
        Exp::ExpInteger { .. } => true,
        Exp::ExpFloat { .. } => true,
        Exp::ExpString { .. } => true,
        Exp::ExpVar { var, .. } => *var is VarName,
        Exp::ExpUnop { exp, .. } => is_operator_exp(*exp),
        Exp::ExpBinop { lhs, rhs, .. } => is_operator_exp(*lhs) && is_operator_exp(*rhs),
        _ => false,
    }
}

/// The first `n` of `es` are operator expressions.
pub open spec fn all_operator_exps(es: Seq<Exp>, n: int) -> bool
    decreases es, n,
{
    if n <= 0 || n > es.len() {
        n <= 0
    } else {
        all_operator_exps(es, n - 1) && is_operator_exp(es[n - 1])
    }
}

/// Where the typed form of an operator expression stands: at the name for a
/// name, at the expression otherwise.
pub open spec fn operand_loc(e: Exp) -> Loc {
    match e {
        Exp::ExpVar { var, .. } => match *var {
            Var::VarName { loc, .. } => loc,
            _ => spec_exp_loc(e),
        },
        _ => spec_exp_loc(e),
    }
}

/// The name that an operand reads directly, if it is a name.
pub open spec fn operand_name(e: Exp) -> Option<Seq<char>> {
    match e {
        Exp::ExpVar { var, .. } => match *var {
            Var::VarName { name, .. } => Some(name@),
            _ => None,
        },
        _ => None,
    }
}

/// The name that a typed expression reads directly, if it is a name.
pub open spec fn typed_name(t: TypedExp) -> Option<Seq<char>> {
    match t.kind {
        TypedExpKind::Var(n) => Some(n@),
        _ => None,
    }
}

/// The error for using an optional value (of base type `base`) where its
/// base type is expected; `name` is the name it was read from, if any.
pub open spec fn option_message(name: Option<Seq<char>>, base: Seq<char>) -> Seq<char> {
    match name {
        Some(n) => "'"@ + n + "' é "@ + base + "? e pode ser nil: teste com `if "@ + n
            + " ~= nil then` antes de usar como "@ + base + "."@,
        None => "este valor é "@ + base
            + "? e pode ser nil: guarde-o num `local` e teste com `if nome ~= nil then` antes de usar como "@
            + base + "."@,
    }
}

/// The error for an optional operand, if it is one.
pub open spec fn option_errors(t: TypeModel, loc: Loc, name: Option<Seq<char>>) -> Seq<(Seq<char>, Loc)> {
    match t {
        TypeModel::Option { base } => seq![(option_message(name, spec_type_name(*base)), loc)],
        _ => seq![],
    }
}

/// The error for an operand of `op` that is not numeric, if it is not.
pub open spec fn numeric_error(op: Seq<char>, t: TypeModel, loc: Loc) -> Seq<(Seq<char>, Loc)> {
    if spec_is_numeric(t) {
        seq![]
    } else {
        seq![("operando de `"@ + op + "` precisa ser numérico (integer ou float), encontrado "@ + spec_type_name(t) + "."@, loc)]
    }
}

/// The error for an operand of `op` that is not `integer`, if it is not.
pub open spec fn integer_error(op: Seq<char>, t: TypeModel, loc: Loc) -> Seq<(Seq<char>, Loc)> {
    if t is Integer {
        seq![]
    } else {
        seq![("operando de `"@ + op + "` precisa ser integer, encontrado "@ + spec_type_name(t) + "."@, loc)]
    }
}

/// The error for an operand of `op` that is not `boolean`, if it is not.
pub open spec fn boolean_error(op: Seq<char>, t: TypeModel, loc: Loc) -> Seq<(Seq<char>, Loc)> {
    if t is Boolean {
        seq![]
    } else {
        seq![("operando de `"@ + op + "` precisa ser boolean, encontrado "@ + spec_type_name(t) + "."@, loc)]
    }
}

/// `==` and `~=` accept these operand types: both numeric, the same string
/// or boolean type, or an optional value against `nil`.
pub open spec fn equality_accepts(l: TypeModel, r: TypeModel) -> bool {
    ||| (l is Option && r is Nil) || (l is Nil && r is Option)
    ||| spec_is_numeric(l) && spec_is_numeric(r)
    ||| equals_spec(l, r) && (l is String || l is Boolean)
}

/// What a binary operator answers on typed operands (types `l` and `r`,
/// at `ll` and `rl`, read from names `ln` and `rn`): its type, or the
/// errors.
pub open spec fn binop_verdict(
    op: BinOp,
    ops: Seq<char>,
    loc: Loc,
    l: TypeModel,
    ll: Loc,
    ln: Option<Seq<char>>,
    r: TypeModel,
    rl: Loc,
    rn: Option<Seq<char>>,
) -> (Option<TypeModel>, Seq<(Seq<char>, Loc)>) {
    let optional = l is Option || r is Option;
    let opt_errs = option_errors(l, ll, ln) + option_errors(r, rl, rn);
    if !(op is Eq || op is Ne) && optional {
        (None, opt_errs)
    } else {
        match op {
            BinOp::Add | BinOp::Sub | BinOp::Mul | BinOp::Mod | BinOp::IDiv => if spec_is_numeric(l)
                && spec_is_numeric(r) {
                (Some(spec_numeric_result(l, r)), seq![])
            } else {
                (None, numeric_error(ops, l, ll) + numeric_error(ops, r, rl))
            },
            BinOp::Div | BinOp::Pow => if spec_is_numeric(l) && spec_is_numeric(r) {
                (Some(TypeModel::Float), seq![])
            } else {
                (None, numeric_error(ops, l, ll) + numeric_error(ops, r, rl))
            },
            BinOp::Eq | BinOp::Ne => if equality_accepts(l, r) {
                (Some(TypeModel::Boolean), seq![])
            } else if optional {
                (None, opt_errs)
            } else {
                (
                    None,
                    seq![
                        (
                            "não é possível comparar "@ + spec_type_name(l) + " com "@ + spec_type_name(r)
                                + " usando `"@ + ops + "`."@,
                            loc,
                        ),
                    ],
                )
            },
            BinOp::Lt | BinOp::Gt | BinOp::Le | BinOp::Ge => if (spec_is_numeric(l) && spec_is_numeric(r))
                || (l is String && r is String) {
                (Some(TypeModel::Boolean), seq![])
            } else {
                (
                    None,
                    seq![
                        (
                            "`"@ + ops + "` compara número com número ou string com string, encontrado "@
                                + spec_type_name(l) + " e "@ + spec_type_name(r) + "."@,
                            loc,
                        ),
                    ],
                )
            },
            BinOp::And | BinOp::Or => if l is Boolean && r is Boolean {
                (Some(TypeModel::Boolean), seq![])
            } else {
                (None, boolean_error(ops, l, ll) + boolean_error(ops, r, rl))
            },
            _ => if l is Integer && r is Integer {
                (Some(TypeModel::Integer), seq![])
            } else {
                (None, integer_error(ops, l, ll) + integer_error(ops, r, rl))
            },
        }
    }
}

/// What a unary operator answers on a typed operand of type `t`, at `tl`,
/// read from name `tn`: its type, or the error.
pub open spec fn unop_verdict(op: UnOp, t: TypeModel, tl: Loc, tn: Option<Seq<char>>) -> (
    Option<TypeModel>,
    Seq<(Seq<char>, Loc)>,
) {
    if t is Option {
        (None, option_errors(t, tl, tn))
    } else {
        match op {
            UnOp::Neg => if spec_is_numeric(t) {
                (Some(t), seq![])
            } else {
                (
                    None,
                    seq![
                        ("operando de `-` unário precisa ser numérico (integer ou float), encontrado "@ + spec_type_name(t) + "."@, tl),
                    ],
                )
            },
            UnOp::Not => if t is Boolean {
                (Some(TypeModel::Boolean), seq![])
            } else {
                (None, seq![("operando de `not` precisa ser boolean, encontrado "@ + spec_type_name(t) + "."@, tl)])
            },
            UnOp::BNot => if t is Integer {
                (Some(TypeModel::Integer), seq![])
            } else {
                (None, seq![("operando de `~` precisa ser integer, encontrado "@ + spec_type_name(t) + "."@, tl)])
            },
            UnOp::Len => if t is Array || t is String {
                (Some(TypeModel::Integer), seq![])
            } else {
                (None, seq![("`#` espera um array ou string, encontrado "@ + spec_type_name(t) + "."@, tl)])
            },
        }
    }
}

/// What the checker answers on a name: the type of the symbol it resolves
/// to, or the error.
pub open spec fn name_verdict(st: SymTab, loc: Loc, name: Seq<char>) -> (Option<TypeModel>, Seq<(Seq<char>, Loc)>) {
    match st.resolve(name) {
        None => (None, seq![("'"@ + name + "' não foi declarado."@, loc)]),
        Some(s) => if s.kind is Module {
            (None, seq![("'"@ + name + "' é um módulo, não um valor."@, loc)])
        } else {
            (Some(s.ty.model()), seq![])
        },
    }
}

/// What the checker answers on an operator expression in scopes `st`: its
/// type, or exactly the errors it reports.  Operands are checked left to
/// right and the first rejected one stops the check; an unknown operator
/// is reported before its operands are looked at.
pub open spec fn op_verdict(st: SymTab, e: Exp) -> (Option<TypeModel>, Seq<(Seq<char>, Loc)>)
    decreases e, 0int,
{
    match e {
        Exp::ExpConcat { exps, .. } => {
            proof { assert(decreases_to!(exps => exps@)); }
            let v = concat_verdict(st, exps@, exps@.len() as int);
            (if v.0 { Some(TypeModel::String) } else { None }, v.1)
        },
        Exp::ExpNil { .. } => (Some(TypeModel::Nil), seq![]),
        Exp::ExpBool { .. } => (Some(TypeModel::Boolean), seq![]),
        Exp::ExpInteger { .. } => (Some(TypeModel::Integer), seq![]),
        Exp::ExpFloat { .. } => (Some(TypeModel::Float), seq![]),
        Exp::ExpString { .. } => (Some(TypeModel::String), seq![]),
        Exp::ExpVar { var, .. } => match *var {
            Var::VarName { loc, name } => name_verdict(st, loc, name@),
            _ => (None, seq![]),
        },
        Exp::ExpUnop { loc, op, exp } => match spec_unop_from_source(op@) {
            None => (None, seq![("operador unário `"@ + op@ + "` não é suportado nesta fase."@, loc)]),
            Some(u) => {
                let inner = op_verdict(st, *exp);
                match inner.0 {
                    None => (None, inner.1),
                    Some(t) => unop_verdict(u, t, operand_loc(*exp), operand_name(*exp)),
                }
            },
        },
        Exp::ExpBinop { loc, lhs, op, rhs } => match spec_binop_from_source(op@) {
            None => (None, seq![("operador `"@ + op@ + "` não é suportado nesta fase."@, loc)]),
            Some(b) => {
                let lv = op_verdict(st, *lhs);
                match lv.0 {
                    None => (None, lv.1),
                    Some(l) => {
                        let rv = op_verdict(st, *rhs);
                        match rv.0 {
                            None => (None, rv.1),
                            Some(r) => binop_verdict(
                                b,
                                op@,
                                loc,
                                l,
                                operand_loc(*lhs),
                                operand_name(*lhs),
                                r,
                                operand_loc(*rhs),
                                operand_name(*rhs),
                            ),
                        }
                    },
                }
            },
        },
        _ => (None, seq![]),
    }
}

/// What the checker answers on the first `n` operands of a concatenation:
/// whether all of them are accepted, and the errors of those that are not.
/// Every operand is checked, also after a rejected one.
pub open spec fn concat_verdict(st: SymTab, es: Seq<Exp>, n: int) -> (bool, Seq<(Seq<char>, Loc)>)
    decreases es, n,
{
    if n <= 0 || n > es.len() {
        (true, seq![])
    } else {
        let prev = concat_verdict(st, es, n - 1);
        let e = es[n - 1];
        let v = op_verdict(st, e);
        let cur: (bool, Seq<(Seq<char>, Loc)>) = match v.0 {
            None => (false, v.1),
            Some(t) => if t is Option {
                (false, option_errors(t, operand_loc(e), operand_name(e)))
            } else if !spec_concat_operand(t) {
                (
                    false,
                    seq![
                        (
                            "operando de `..` precisa ser string, integer ou float, encontrado "@ + spec_type_name(t) + "."@,
                            operand_loc(e),
                        ),
                    ],
                )
            } else {
                (true, seq![])
            },
        };
        (prev.0 && cur.0, prev.1 + cur.1)
    }
}

/// Position of the first variable of `decls` written optional, if any.
pub open spec fn first_optional(decls: Seq<Decl>) -> Option<int> {
    if exists|i: int| 0 <= i < decls.len() && decls[i].option && forall|j: int| 0 <= j < i ==> !(#[trigger] decls[j]).option {
        Some(choose|i: int| 0 <= i < decls.len() && decls[i].option && forall|j: int| 0 <= j < i ==> !(#[trigger] decls[j]).option)
    } else {
        None
    }
}

/// How the header of `for decls in exp do` is rejected, when `exp` is an
/// operator expression: the container's own errors, an optional container,
/// an optional loop variable, a repeated name, a name count that does not
/// fit the container, or a container that is neither array nor map.  The
/// errors are given when the header is rejected; `None` when it passes.
pub open spec fn for_in_header_errors(st: SymTab, loc: Loc, decls: Seq<Decl>, exp: Exp) -> Option<
    Seq<(Seq<char>, Loc)>,
> {
    let v = op_verdict(st, exp);
    match v.0 {
        None => Some(v.1),
        Some(t) => if t is Option {
            Some(option_errors(t, operand_loc(exp), operand_name(exp)))
        } else if first_optional(decls) is Some {
            Some(seq![("a variável do `for`-in não pode ser opcional (`?`)."@, decls[first_optional(decls)->0].loc)])
        } else if decls.len() == 2 && decls[0].name@ == decls[1].name@ {
            Some(
                seq![
                    (
                        "'"@ + decls[1].name@
                            + "' aparece duas vezes nas variáveis do `for`-in; chave e valor precisam de nomes diferentes."@,
                        decls[1].loc,
                    ),
                ],
            )
        } else if t is Array {
            if decls.len() != 1 {
                Some(
                    seq![
                        (
                            "iterar sobre "@ + spec_type_name(t) + " liga um nome (o elemento); encontrei "@ + decimal(
                                decls.len(),
                            ) + ". Escreva `for x in ... do`."@,
                            loc,
                        ),
                    ],
                )
            } else {
                None
            }
        } else if t is Dict {
            if decls.len() != 2 {
                Some(
                    seq![
                        (
                            "iterar sobre "@ + spec_type_name(t) + " liga dois nomes (chave e valor); encontrei "@
                                + decimal(decls.len()) + ". Escreva `for k, v in ... do`."@,
                            loc,
                        ),
                    ],
                )
            } else {
                None
            }
        } else {
            Some(
                seq![
                    (
                        "o `for`-in itera sobre array (`{T}`) ou map (`{K: V}`), encontrado "@ + spec_type_name(t) + "."@,
                        operand_loc(exp),
                    ),
                ],
            )
        },
    }
}

/// What the checker answers on `base[index]` when both are operator
/// expressions: the element or value type, or exactly the errors.
pub open spec fn index_verdict(st: SymTab, base: Exp, index: Exp) -> (Option<TypeModel>, Seq<(Seq<char>, Loc)>) {
    let bv = op_verdict(st, base);
    match bv.0 {
        None => (None, bv.1),
        Some(b) => if b is Option {
            (None, option_errors(b, operand_loc(base), operand_name(base)))
        } else {
            let shape: Option<(TypeModel, TypeModel)> = match b {
                TypeModel::Array { elem } => Some((TypeModel::Integer, *elem)),
                TypeModel::Dict { keys, values } => Some((*keys, *values)),
                _ => None,
            };
            match shape {
                None => if b is String {
                    (None, seq![("não é possível indexar uma string com `[]` nesta fase."@, operand_loc(base))])
                } else {
                    (None, seq![("não é possível indexar "@ + spec_type_name(b) + "."@, operand_loc(base))])
                },
                Some((k, res)) => {
                    let iv = op_verdict(st, index);
                    match iv.0 {
                        None => (None, iv.1),
                        Some(i) => if i is Option {
                            (None, option_errors(i, operand_loc(index), operand_name(index)))
                        } else if !compatible_spec(k, i) {
                            (
                                None,
                                seq![
                                    (
                                        "índice incompatível: esperado "@ + spec_type_name(k) + ", encontrado "@
                                            + spec_type_name(i) + "."@,
                                        operand_loc(index),
                                    ),
                                ],
                            )
                        } else {
                            (Some(res), seq![])
                        },
                    }
                },
            }
        },
    }
}

/// The element (or value) type and the key type of an indexable type.
pub open spec fn index_shape(b: TypeModel) -> Option<(TypeModel, TypeModel)> {
    match b {
        TypeModel::Array { elem } => Some((TypeModel::Integer, *elem)),
        TypeModel::Dict { keys, values } => Some((*keys, *values)),
        _ => None,
    }
}

/// The type of a value of type `t` passed where `p` is expected, after an
/// optional parameter wraps it.
pub open spec fn widened_type(p: TypeModel, t: TypeModel) -> TypeModel {
    match spec_widens(p, t) {
        Some(w) => w,
        None => t,
    }
}

/// The type that the checker gives expression `e` in scopes `st` without
/// reporting any error, when `e` is of a kind this describes: literals,
/// names, indexing, unary and binary operators and concatenations over such
/// expressions, and calls of a function name whose arguments are such
/// expressions and fit its parameters.  `None` says nothing.
pub open spec fn accept(st: SymTab, e: Exp) -> Option<TypeModel>
    decreases e, 0int,
{
    match e {
        Exp::ExpNil { .. } => Some(TypeModel::Nil),
        Exp::ExpBool { .. } => Some(TypeModel::Boolean),
        Exp::ExpInteger { .. } => Some(TypeModel::Integer),
        Exp::ExpFloat { .. } => Some(TypeModel::Float),
        Exp::ExpString { .. } => Some(TypeModel::String),
        Exp::ExpVar { var, .. } => accept_var(st, *var),
        Exp::ExpUnop { op, exp, .. } => match spec_unop_from_source(op@) {
            None => None,
            Some(u) => match accept(st, *exp) {
                None => None,
                Some(t) => unop_verdict(u, t, operand_loc(*exp), operand_name(*exp)).0,
            },
        },
        Exp::ExpBinop { loc, lhs, op, rhs } => match spec_binop_from_source(op@) {
            None => None,
            Some(b) => match accept(st, *lhs) {
                None => None,
                Some(l) => match accept(st, *rhs) {
                    None => None,
                    Some(r) => binop_verdict(
                        b,
                        op@,
                        loc,
                        l,
                        operand_loc(*lhs),
                        operand_name(*lhs),
                        r,
                        operand_loc(*rhs),
                        operand_name(*rhs),
                    ).0,
                },
            },
        },
        Exp::ExpConcat { exps, .. } => {
            proof { assert(decreases_to!(exps => exps@)); }
            if accept_concat(st, exps@, exps@.len() as int) {
                Some(TypeModel::String)
            } else {
                None
            }
        },
        Exp::ExpCall { exp, args, .. } => match args {
            Args::ArgsFunc { args: a, .. } => match fn_callee_type(st, *exp) {
                Some(TypeModel::Function { params, rettypes }) => {
                    proof { assert(decreases_to!(a => a@)); }
                    if a@.len() == params.len() && accept_args(st, a@, params, a@.len() as int) {
                        Some(if rettypes.len() > 0 { rettypes[0] } else { TypeModel::Nil })
                    } else {
                        None
                    }
                },
                _ => None,
            },
            _ => None,
        },
        _ => None,
    }
}

/// The function type of a callee that is a name bound to a function.
pub open spec fn fn_callee_type(st: SymTab, callee: Exp) -> Option<TypeModel> {
    match callee {
        Exp::ExpVar { var, .. } => match *var {
            Var::VarName { name, .. } => match st.resolve(name@) {
                Some(s) => if s.ty.model() is Function {
                    Some(s.ty.model())
                } else {
                    None
                },
                None => None,
            },
            _ => None,
        },
        _ => None,
    }
}

/// `k` is the first field of `fm` named `n`.
pub open spec fn first_field(fm: Seq<(Seq<char>, TypeModel)>, n: Seq<char>, k: int) -> bool {
    0 <= k < fm.len() && fm[k].0 == n && forall|j: int| 0 <= j < k ==> fm[j].0 != n
}

/// The type of the first field of `fm` named `n`, if there is one.
pub open spec fn record_field(fm: Seq<(Seq<char>, TypeModel)>, n: Seq<char>) -> Option<TypeModel> {
    if exists|k: int| first_field(fm, n, k) {
        Some(fm[choose|k: int| first_field(fm, n, k)].1)
    } else {
        None
    }
}

/// `accept` for a place: a name, or an index into an accepted value.
pub open spec fn accept_var(st: SymTab, v: Var) -> Option<TypeModel>
    decreases v, 0int,
{
    match v {
        Var::VarName { loc, name } => name_verdict(st, loc, name@).0,
        Var::VarBracket { exp1, exp2, .. } => match accept(st, *exp1) {
            None => None,
            Some(b) => if b is Option {
                None
            } else {
                match index_shape(b) {
                    None => None,
                    Some((k, res)) => match accept(st, *exp2) {
                        None => None,
                        Some(i) => if i is Option || !compatible_spec(k, i) {
                            None
                        } else {
                            Some(res)
                        },
                    },
                }
            },
        },
        Var::VarDot { exp, name, .. } => match accept(st, *exp) {
            Some(TypeModel::Record { fields, .. }) => record_field(fields, name@),
            _ => None,
        },
    }
}

/// The first `n` operands of a concatenation are accepted and may be
/// concatenated.
pub open spec fn accept_concat(st: SymTab, es: Seq<Exp>, n: int) -> bool
    decreases es, n,
{
    if n <= 0 || n > es.len() {
        n <= 0
    } else {
        accept_concat(st, es, n - 1) && match accept(st, es[n - 1]) {
            Some(t) => !(t is Option) && spec_concat_operand(t),
            None => false,
        }
    }
}

/// The names of the first `n` arguments that are composite values read
/// from a name (each is borrowed mutably by the call).
pub open spec fn composite_names(st: SymTab, a: Seq<Exp>, n: int) -> Seq<Seq<char>>
    decreases a, n,
{
    if n <= 0 || n > a.len() {
        Seq::empty()
    } else {
        let prev = composite_names(st, a, n - 1);
        match accept(st, a[n - 1]) {
            Some(t) => if spec_is_composite(t) {
                match operand_name(a[n - 1]) {
                    Some(nm) => prev.push(nm),
                    None => prev,
                }
            } else {
                prev
            },
            None => prev,
        }
    }
}

/// The first `n` arguments are accepted, fit their parameters `ps` once
/// widened, and a composite one is a name borrowed once only.
pub open spec fn accept_args(st: SymTab, a: Seq<Exp>, ps: Seq<TypeModel>, n: int) -> bool
    decreases a, n,
{
    if n <= 0 || n > a.len() {
        n <= 0
    } else {
        accept_args(st, a, ps, n - 1) && match accept(st, a[n - 1]) {
            Some(t) => compatible_spec(ps[n - 1], widened_type(ps[n - 1], t)) && (spec_is_composite(t) ==> (
            operand_name(a[n - 1]) matches Some(nm) && !composite_names(st, a, n - 1).contains(nm))),
            None => false,
        }
    }
}

pub proof fn lemma_accept_concat_index(st: SymTab, es: Seq<Exp>, n: int, i: int)
    requires
        accept_concat(st, es, n),
        0 <= i < n,
    ensures
        accept(st, es[i]) matches Some(t) && !(t is Option) && spec_concat_operand(t),
    decreases n,
{
    if i < n - 1 {
        lemma_accept_concat_index(st, es, n - 1, i);
    }
}

pub proof fn lemma_accept_args_index(st: SymTab, a: Seq<Exp>, ps: Seq<TypeModel>, n: int, i: int)
    requires
        accept_args(st, a, ps, n),
        0 <= i < n,
    ensures
        accept(st, a[i]) matches Some(t) && compatible_spec(ps[i], widened_type(ps[i], t)) && (spec_is_composite(t)
            ==> (operand_name(a[i]) matches Some(nm) && !composite_names(st, a, i).contains(nm))),
    decreases n,
{
    if i < n - 1 {
        lemma_accept_args_index(st, a, ps, n - 1, i);
    }
}

/// `local d = e` is accepted: the annotation, if any, resolves to a type
/// that the value fits once widened; without one the value is not `nil`
/// for `x?` and not optional for a plain name.
pub open spec fn decl_accepted(
    st: SymTab,
    records: Seq<(String, crate::types::Type)>,
    modules: Seq<(String, crate::capabilities::Capability)>,
    d: Decl,
    e: Exp,
) -> bool {
    match accept(st, e) {
        None => false,
        Some(t) => match d.ty {
            Some(a) => match crate::checker::state::spec_resolve_type(records, modules, a) {
                Some(dt) => compatible_spec(dt, widened_type(dt, t)),
                None => false,
            },
            None => if d.option {
                !(t is Nil)
            } else {
                !(t is Option)
            },
        },
    }
}

/// `var` can be assigned to: a name bound to a local or a loop variable,
/// or an index or field chain, accepted as a value, rooted at a local, a
/// loop variable or a composite parameter.
pub open spec fn assign_target_accepted(st: SymTab, var: Var) -> bool {
    match var {
        Var::VarName { name, .. } => match st.resolve(name@) {
            Some(s) => s.kind is Local || s.kind is ForVar,
            None => false,
        },
        _ => match crate::checker::names::spec_root_var_name(var) {
            Some(rn) => match st.resolve(rn) {
                Some(s) => (s.kind is Local || s.kind is ForVar || (s.kind is Param && spec_is_composite(s.ty.model())))
                    && accept_var(st, var) is Some,
                None => false,
            },
            None => false,
        },
    }
}

/// The type of an assignment target: the symbol's for a name, the value's
/// for an index or field chain.
pub open spec fn assign_target_type(st: SymTab, var: Var) -> Option<TypeModel> {
    match var {
        Var::VarName { name, .. } => match st.resolve(name@) {
            Some(s) => Some(s.ty.model()),
            None => None,
        },
        _ => accept_var(st, var),
    }
}

/// The errors for writing, at each of `locs`, into the container `name`
/// that a `for`-in iterates over.
pub open spec fn mutation_errors(locs: Seq<Loc>, name: Seq<char>) -> Seq<(Seq<char>, Loc)> {
    locs.map_values(
        |l: Loc|
            (
                "não é possível modificar '"@ + name + "' dentro do `for`-in que itera sobre ele; "@
                    + "itere sobre uma cópia ou colete as mudanças e aplique-as depois do laço."@,
                l,
            ),
    )
}

/// A `return` of `exps` fits results `rets`: as many values, each accepted
/// and fitting its result type once widened.
pub open spec fn return_fits(st: SymTab, exps: Seq<Exp>, rets: Seq<TypeModel>) -> bool {
    &&& exps.len() == rets.len()
    &&& forall|i: int|
        0 <= i < exps.len() ==> (accept(st, #[trigger] exps[i]) matches Some(t) && compatible_spec(
            rets[i],
            widened_type(rets[i], t),
        ))
}

/// The type of the `k`-th returned operator expression once widened to
/// result `r`.
pub open spec fn returned_type(st: SymTab, e: Exp, r: TypeModel) -> TypeModel {
    widened_type(r, op_verdict(st, e).0->0)
}

/// `k` is the first returned value that does not fit its result.
pub open spec fn first_return_mismatch(st: SymTab, exps: Seq<Exp>, rets: Seq<TypeModel>, k: int) -> bool {
    &&& 0 <= k < exps.len()
    &&& !compatible_spec(rets[k], returned_type(st, exps[k], rets[k]))
    &&& forall|j: int| 0 <= j < k ==> compatible_spec(rets[j], returned_type(st, #[trigger] exps[j], rets[j]))
}

/// A block without statements.
pub open spec fn is_empty_block(s: crate::ast::Stat) -> bool {
    s matches crate::ast::Stat::StatBlock { stats, .. } && stats@.len() == 0
}

/// Every expression of `es` is an operator expression that the checker
/// accepts in scopes `st`.
pub open spec fn all_accepted(st: SymTab, es: Seq<Exp>) -> bool {
    forall|i: int| 0 <= i < es.len() ==> is_operator_exp(#[trigger] es[i]) && op_verdict(st, es[i]).0 is Some
}

/// The error for a `return` of `n` values in a function with `m` results.
pub open spec fn return_arity_message(n: nat, m: nat) -> Seq<char> {
    "retornou "@ + decimal(n) + " valor(es), mas a função espera "@ + decimal(m) + "."@
}

/// Checking operator expression `e` in scopes `st` took the errors from
/// `before` to `after` and gave `r`, as `op_verdict` says: the typed form
/// exactly when the verdict is a type, of that type, at the operand's
/// place and reading the operand's name; the verdict's errors otherwise.
pub open spec fn operator_checked(
    st: SymTab,
    before: Seq<CheckError>,
    after: Seq<CheckError>,
    e: Exp,
    r: Option<TypedExp>,
) -> bool {
    let v = op_verdict(st, e);
    &&& errors_view(after) == errors_view(before) + v.1
    &&& r is Some <==> v.0 is Some
    &&& r matches Some(t) ==> v.0 == Some(t.ty.model()) && t.loc == operand_loc(e) && typed_name(t) == operand_name(e)
}

/// A type in the verdict comes with no error, a rejection with some.
pub proof fn lemma_typed_verdict_has_no_errors(st: SymTab, e: Exp)
    requires
        is_operator_exp(e),
    ensures
        op_verdict(st, e).0 is Some ==> op_verdict(st, e).1.len() == 0,
        op_verdict(st, e).0 is None ==> op_verdict(st, e).1.len() > 0,
    decreases e, 0int,
{
    match e {
        Exp::ExpUnop { exp, .. } => {
            lemma_typed_verdict_has_no_errors(st, *exp);
        },
        Exp::ExpBinop { lhs, rhs, .. } => {
            lemma_typed_verdict_has_no_errors(st, *lhs);
            lemma_typed_verdict_has_no_errors(st, *rhs);
        },
        Exp::ExpConcat { exps, .. } => {
            assert(decreases_to!(exps => exps@));
            lemma_concat_verdict_errors(st, exps@, exps@.len() as int);
        },
        _ => {},
    }
}

pub proof fn lemma_all_operator_exps_index(es: Seq<Exp>, n: int, i: int)
    requires
        all_operator_exps(es, n),
        0 <= i < n,
    ensures
        is_operator_exp(es[i]),
    decreases n,
{
    if i < n - 1 {
        lemma_all_operator_exps_index(es, n - 1, i);
    }
}

/// All operands accepted comes with no error, one rejected with some.
pub proof fn lemma_concat_verdict_errors(st: SymTab, es: Seq<Exp>, n: int)
    requires
        all_operator_exps(es, n),
    ensures
        concat_verdict(st, es, n).0 ==> concat_verdict(st, es, n).1.len() == 0,
        !concat_verdict(st, es, n).0 ==> concat_verdict(st, es, n).1.len() > 0,
    decreases es, n,
{
    if 0 < n <= es.len() {
        lemma_concat_verdict_errors(st, es, n - 1);
        lemma_typed_verdict_has_no_errors(st, es[n - 1]);
    }
}

} // verus!
