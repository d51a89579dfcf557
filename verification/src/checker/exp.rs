//! Typing of expressions.
use vstd::prelude::*;
use crate::ast::{exp_loc, spec_exp_loc, Args, Exp, Field, FieldName, Loc, Var};
use crate::checker::names::{is_numeric, spec_is_numeric, spec_type_name, numeric_result, type_name_of};
use crate::checker::rules::{
    spec_binop_result, spec_cast_result, spec_concat_operand, spec_strip_option,
    spec_unop_from_source, spec_unop_result,
};
use crate::checker::names::spec_binop_from_source;
use crate::checker::resolve::is_widening_of;
use crate::checker::state::{spec_resolve_type, Checker};
use crate::checker::symtab::SymbolKind;
use crate::checker::typed::{BinOp, Callee, CastKind, TypedExp, TypedExpKind, UnOp};
use crate::checker::verdict::{
    errors_view, integer_error, is_operator_exp, lemma_errors_view_push, lemma_push_is_concat,
    lemma_typed_verdict_has_no_errors, lemma_concat_assoc, lemma_all_operator_exps_index, all_operator_exps,
    concat_verdict, op_verdict, accept, accept_concat, lemma_accept_concat_index, binop_verdict, unop_verdict, boolean_error, numeric_error, operator_checked, option_errors, typed_name,
};
use crate::named::{find_named, lookup_named, contains_str};
use crate::text::{cat, cat3, cat5, usize_to_string};
use crate::types::{compatible_spec, equals_spec, Type, TypeModel};

verus! {

broadcast use vstd::std_specs::vec::axiom_vec_decreases_to_view;

/// What the checker promises of the typed form `te` of a name, an index or
/// a field access, in the state `c` it was checked in: the base and the
/// index are themselves the typed forms of the written ones.
pub open spec fn var_typing(c: Checker, var: Var, te: TypedExp) -> bool
    decreases var,
{
    match var {
        Var::VarName { loc, name } => te.loc == loc && match c.st.resolve(name@) {
            Some(s) => !(s.kind is Module) && te.ty.model() == s.ty.model() && match te.kind {
                TypedExpKind::Var(n) => n@ == name@,
                _ => false,
            },
            None => false,
        },
        Var::VarBracket { loc, exp1, exp2 } => te.loc == loc && match te.kind {
            TypedExpKind::Index { base, index } => {
                &&& exp_typing(c, *exp1, *base)
                &&& exp_typing(c, *exp2, *index)
                &&& match base.ty.model() {
                    TypeModel::Array { elem } => te.ty.model() == *elem && compatible_spec(
                        TypeModel::Integer,
                        index.ty.model(),
                    ),
                    TypeModel::Dict { keys, values } => te.ty.model() == *values && compatible_spec(
                        *keys,
                        index.ty.model(),
                    ),
                    _ => false,
                }
            },
            _ => false,
        },
        Var::VarDot { loc, exp, name } => te.loc == loc && match te.kind {
            TypedExpKind::Field { base, name: n } => {
                &&& exp_typing(c, *exp, *base)
                &&& n@ == name@
                &&& match base.ty {
                    Type::Record { fields, .. } => match lookup_named(fields@, name@) {
                        Some(ft) => ft.model() == te.ty.model(),
                        None => false,
                    },
                    _ => false,
                }
            },
            _ => false,
        },
    }
}

/// `te` converts its operand to `t` by one of the conversions of `as`.
pub open spec fn is_conversion_to(te: TypedExp, t: TypeModel) -> bool {
    match te.kind {
        TypedExpKind::Cast { kind, exp: inner } => te.ty.model() == t && spec_cast_result(
            inner.ty.model(),
            t,
        ) == Some(Some(kind)),
        _ => false,
    }
}

/// What the checker promises of the typed form `te` of `exp`, checked in
/// the state `c`: literals keep their value, operators follow the typing
/// rules, a cast has the written target type, `..` gives a string; the
/// operands of operators, casts, indexes and field accesses are themselves
/// the typed forms of the written operands.
pub open spec fn exp_typing(c: Checker, exp: Exp, te: TypedExp) -> bool
    decreases exp,
{
    match exp {
        Exp::ExpNil { loc } => te.loc == loc && te.ty.model() == TypeModel::Nil && te.kind
            == TypedExpKind::Nil,
        Exp::ExpBool { loc, value } => te.loc == loc && te.ty.model() == TypeModel::Boolean
            && te.kind == TypedExpKind::Bool(value),
        Exp::ExpInteger { loc, value } => te.loc == loc && te.ty.model() == TypeModel::Integer
            && te.kind == TypedExpKind::Integer(value),
        Exp::ExpFloat { loc, bits } => te.loc == loc && te.ty.model() == TypeModel::Float
            && te.kind == TypedExpKind::Float(bits),
        Exp::ExpString { loc, value } => te.loc == loc && te.ty.model() == TypeModel::String
            && match te.kind {
            TypedExpKind::String(s) => s@ == value@,
            _ => false,
        },
        Exp::ExpVar { var, .. } => var_typing(c, *var, te),
        Exp::ExpConcat { loc, exps } => te.loc == loc && te.ty.model() == TypeModel::String
            && match te.kind {
            TypedExpKind::Concat(es) => es@.len() == exps@.len() && forall|i: int|
                0 <= i < es@.len() ==> spec_concat_operand(#[trigger] es@[i].ty.model())
                    && exp_typing(c, exps@[i], es@[i]),
            _ => false,
        },
        Exp::ExpUnop { loc, op, exp: operand } => te.loc == loc && match te.kind {
            TypedExpKind::Unop { op: o, exp: inner } => spec_unop_from_source(op@) == Some(o)
                && spec_unop_result(o, inner.ty.model()) == Some(te.ty.model()) && exp_typing(
                c,
                *operand,
                *inner,
            ),
            _ => false,
        },
        Exp::ExpBinop { loc, op, lhs: lhs_exp, rhs: rhs_exp } => te.loc == loc && match te.kind {
            TypedExpKind::Binop { op: o, lhs, rhs } => {
                &&& spec_binop_from_source(op@) == Some(o)
                &&& spec_binop_result(o, lhs.ty.model(), rhs.ty.model()) == Some(te.ty.model())
                &&& exp_typing(c, *lhs_exp, *lhs)
                &&& exp_typing(c, *rhs_exp, *rhs)
            },
            _ => false,
        },
        Exp::ExpCast { target, exp: operand, .. } => match spec_resolve_type(
            c.records@,
            c.modules@,
            target,
        ) {
            Some(t) => (is_conversion_to(te, t) && match te.kind {
                TypedExpKind::Cast { exp: inner, .. } => exp_typing(c, *operand, *inner),
                _ => false,
            }) || (equals_spec(te.ty.model(), t) && exp_typing(c, *operand, te)),
            None => false,
        },
        Exp::ExpInitList { loc, fields } => te.loc == loc && (te.ty.model() is Array
            || te.ty.model() is Dict || te.ty.model() is Record) && init_typing(c, fields@, te.kind),
        Exp::ExpCall { loc, args: written, exp: callee_exp } => te.loc == loc && match typed_call_args(te) {
            Some(targs) => args_typing(c, written, targs),
            None => false,
        } && match typed_callee(te) {
            Some(Callee::Method { recv, .. }) => match written {
                Args::ArgsMethod { .. } => exp_typing(c, *callee_exp, *recv),
                Args::ArgsFunc { .. } => match *callee_exp {
                    Exp::ExpVar { var, .. } => match *var {
                        Var::VarDot { exp: base, .. } => exp_typing(c, *base, *recv),
                        _ => false,
                    },
                    _ => false,
                },
            },
            _ => true,
        },
        Exp::ExpAdjust { exp: inner, .. } => match *inner {
            Exp::ExpCall { .. } => true,
            other => exp_typing(c, other, te),
        },
        Exp::ExpExtra { loc, index, exp: call_exp, .. } => te.loc == loc && match te.kind {
            TypedExpKind::Extra { exp: inner, index: k } => k == index && inner.kind is Call && match *call_exp {
                Exp::ExpCall { args: written, .. } => match typed_call_args(*inner) {
                    Some(targs) => args_typing(c, written, targs),
                    None => false,
                },
                _ => false,
            },
            _ => false,
        },
    }
}

/// The typed arguments of a call are, one for one, value typings of the
/// written arguments (see `value_typing`).
pub open spec fn args_typing(c: Checker, written: Args, targs: Seq<TypedExp>) -> bool
    decreases written,
{
    targs.len() == args_of(written).len() && forall|i: int|
        0 <= i < targs.len() ==> {
            ||| exp_typing(c, args_of(written)[i], #[trigger] targs[i])
            ||| exp_typing(
                c,
                args_of(written)[i],
                TypedExp { loc: targs[i].loc, ty: Type::Nil, kind: targs[i].kind },
            )
            ||| match targs[i].kind {
                TypedExpKind::SomeOf(inner) => exp_typing(c, args_of(written)[i], *inner),
                _ => false,
            }
        }
}

/// The elements of a checked `{...}`: each array element, map key and map
/// value is the typed form of the written one, in order; each field of a
/// record constructor is the typed form of a written field of that name.
pub open spec fn init_typing(c: Checker, fields: Seq<Field>, kind: TypedExpKind) -> bool
    decreases fields,
{
    match kind {
        TypedExpKind::ArrayLit(es) => es@.len() == fields.len() && forall|i: int|
            0 <= i < es@.len() ==> exp_typing(c, fields[i].exp, #[trigger] es@[i]),
        TypedExpKind::MapLit(es) => es@.len() == fields.len() && forall|i: int|
            0 <= i < es@.len() ==> exp_typing(c, fields[i].exp, (#[trigger] es@[i]).1) && match fields[i].name {
                FieldName::Key(k) => exp_typing(c, *k, es@[i].0),
                _ => false,
            },
        TypedExpKind::RecordLit { fields: tf, .. } => (forall|k: int, j: int|
            0 <= k < tf@.len() && 0 <= j < fields.len() && is_field_named(fields[j], (#[trigger] tf@[k]).0@)
                ==> exp_typing(c, (#[trigger] fields[j]).exp, tf@[k].1)) && all_written(fields, tf@),
        _ => false,
    }
}

/// Every field of a record constructor was written.
pub open spec fn all_written(fields: Seq<Field>, tf: Seq<(String, TypedExp)>) -> bool {
    forall|k: int| 0 <= k < tf.len() ==> written_before(fields, fields.len() as int, (#[trigger] tf[k]).0@)
}

/// Some field before position `i` is written `name = ...`.
pub open spec fn written_before(fields: Seq<Field>, i: int, name: Seq<char>) -> bool {
    exists|j: int| 0 <= j < i && is_field_named(fields[j], name)
}

/// `f` is written `name = value`.
pub open spec fn is_field_named(f: Field, name: Seq<char>) -> bool {
    match f.name {
        FieldName::Name(n) => n@ == name,
        _ => false,
    }
}

/// The written arguments of a call.
pub open spec fn args_of(a: Args) -> Seq<Exp> {
    match a {
        Args::ArgsFunc { args, .. } => args@,
        Args::ArgsMethod { args, .. } => args@,
    }
}

/// The typed arguments of a checked call, seen through the adjustment to
/// its first result.
pub open spec fn typed_call_args(te: TypedExp) -> Option<Seq<TypedExp>> {
    match te.kind {
        TypedExpKind::Call { args, .. } => Some(args@),
        TypedExpKind::Adjust(inner) => match inner.kind {
            TypedExpKind::Call { args, .. } => Some(args@),
            _ => None,
        },
        _ => None,
    }
}

/// The callee of a checked call, seen through the adjustment to its first
/// result.
pub open spec fn typed_callee(te: TypedExp) -> Option<Callee> {
    match te.kind {
        TypedExpKind::Call { callee, .. } => Some(callee),
        TypedExpKind::Adjust(inner) => match inner.kind {
            TypedExpKind::Call { callee, .. } => Some(callee),
            _ => None,
        },
        _ => None,
    }
}

/// The receiver of a method call is the typed form of the written one:
/// `value` in `value:m(...)` and in `value.m(...)`.
pub open spec fn receiver_typing(c: Checker, call: Exp, callee: Callee) -> bool {
    match callee {
        Callee::Method { recv, .. } => match call {
            Exp::ExpCall { exp: callee_exp, args: written, .. } => match written {
                Args::ArgsMethod { .. } => exp_typing(c, *callee_exp, *recv),
                Args::ArgsFunc { .. } => match *callee_exp {
                    Exp::ExpVar { var, .. } => match *var {
                        Var::VarDot { exp: base, .. } => exp_typing(c, *base, *recv),
                        _ => false,
                    },
                    _ => false,
                },
            },
            _ => false,
        },
        _ => true,
    }
}

/// `exp_typing` and `var_typing` read only the scopes, the records and the
/// modules of the state.
pub proof fn lemma_exp_typing_frame(c1: Checker, c2: Checker, exp: Exp, te: TypedExp)
    requires
        c1.st.entries@ == c2.st.entries@,
        c1.records == c2.records,
        c1.modules == c2.modules,
    ensures
        exp_typing(c1, exp, te) == exp_typing(c2, exp, te),
    decreases exp,
{
    match exp {
        Exp::ExpVar { var, .. } => lemma_var_typing_frame(c1, c2, *var, te),
        Exp::ExpConcat { exps, .. } => match te.kind {
            TypedExpKind::Concat(es) => {
                assert forall|i: int| 0 <= i < es@.len() && i < exps@.len() implies exp_typing(
                    c1,
                    exps@[i],
                    es@[i],
                ) == exp_typing(c2, exps@[i], es@[i]) by {
                    assert(decreases_to!(exp => exps@[i]));
                    lemma_exp_typing_frame(c1, c2, exps@[i], es@[i]);
                }
            },
            _ => {},
        },
        Exp::ExpUnop { exp: operand, .. } => match te.kind {
            TypedExpKind::Unop { exp: inner, .. } => lemma_exp_typing_frame(c1, c2, *operand, *inner),
            _ => {},
        },
        Exp::ExpBinop { lhs: lhs_exp, rhs: rhs_exp, .. } => match te.kind {
            TypedExpKind::Binop { lhs, rhs, .. } => {
                lemma_exp_typing_frame(c1, c2, *lhs_exp, *lhs);
                lemma_exp_typing_frame(c1, c2, *rhs_exp, *rhs);
            },
            _ => {},
        },
        Exp::ExpCast { exp: operand, .. } => {
            lemma_exp_typing_frame(c1, c2, *operand, te);
            match te.kind {
                TypedExpKind::Cast { exp: inner, .. } => lemma_exp_typing_frame(c1, c2, *operand, *inner),
                _ => {},
            }
        },
        Exp::ExpAdjust { exp: inner, .. } => lemma_exp_typing_frame(c1, c2, *inner, te),
        Exp::ExpCall { args: written, exp: callee_exp, .. } => {
            match typed_call_args(te) {
                Some(targs) => lemma_args_typing_frame(c1, c2, written, targs),
                None => {},
            }
            match typed_callee(te) {
                Some(Callee::Method { recv, .. }) => {
                    lemma_exp_typing_frame(c1, c2, *callee_exp, *recv);
                    match *callee_exp {
                        Exp::ExpVar { var, .. } => match *var {
                            Var::VarDot { exp: base, .. } => lemma_exp_typing_frame(c1, c2, *base, *recv),
                            _ => {},
                        },
                        _ => {},
                    }
                },
                _ => {},
            }
        },
        Exp::ExpInitList { fields, .. } => lemma_init_typing_frame(c1, c2, fields@, te.kind),
        Exp::ExpExtra { exp: call_exp, .. } => match te.kind {
            TypedExpKind::Extra { exp: inner, .. } => match *call_exp {
                Exp::ExpCall { args: written, .. } => match typed_call_args(*inner) {
                    Some(targs) => lemma_args_typing_frame(c1, c2, written, targs),
                    None => {},
                },
                _ => {},
            },
            _ => {},
        },
        _ => {},
    }
}

/// The counterpart of `lemma_exp_typing_frame` for `{...}` elements.
pub proof fn lemma_init_typing_frame(c1: Checker, c2: Checker, fields: Seq<Field>, kind: TypedExpKind)
    requires
        c1.st.entries@ == c2.st.entries@,
        c1.records == c2.records,
        c1.modules == c2.modules,
    ensures
        init_typing(c1, fields, kind) == init_typing(c2, fields, kind),
    decreases fields,
{
    match kind {
        TypedExpKind::ArrayLit(es) => {
            assert forall|i: int| 0 <= i < es@.len() && i < fields.len() implies exp_typing(c1, fields[i].exp, es@[i])
                == exp_typing(c2, fields[i].exp, es@[i]) by {
                assert(decreases_to!(fields => fields[i]));
                lemma_exp_typing_frame(c1, c2, fields[i].exp, es@[i]);
            }
        },
        TypedExpKind::MapLit(es) => {
            assert forall|i: int| 0 <= i < es@.len() && i < fields.len() implies (exp_typing(c1, fields[i].exp, es@[i].1)
                == exp_typing(c2, fields[i].exp, es@[i].1)) && (match fields[i].name {
                FieldName::Key(k) => exp_typing(c1, *k, es@[i].0),
                _ => false,
            } == match fields[i].name {
                FieldName::Key(k) => exp_typing(c2, *k, es@[i].0),
                _ => false,
            }) by {
                assert(decreases_to!(fields => fields[i]));
                lemma_exp_typing_frame(c1, c2, fields[i].exp, es@[i].1);
                match fields[i].name {
                    FieldName::Key(k) => {
                        assert(decreases_to!(fields => *k));
                        lemma_exp_typing_frame(c1, c2, *k, es@[i].0);
                    },
                    _ => {},
                }
            }
        },
        TypedExpKind::RecordLit { fields: tf, .. } => {
            assert forall|k: int, j: int| 0 <= k < tf@.len() && 0 <= j < fields.len() implies exp_typing(
                c1,
                (#[trigger] fields[j]).exp,
                (#[trigger] tf@[k]).1,
            ) == exp_typing(c2, fields[j].exp, tf@[k].1) by {
                assert(decreases_to!(fields => fields[j]));
                lemma_exp_typing_frame(c1, c2, fields[j].exp, tf@[k].1);
            }
        },
        _ => {},
    }
}

/// The counterpart of `lemma_exp_typing_frame` for call arguments.
pub proof fn lemma_args_typing_frame(c1: Checker, c2: Checker, written: Args, targs: Seq<TypedExp>)
    requires
        c1.st.entries@ == c2.st.entries@,
        c1.records == c2.records,
        c1.modules == c2.modules,
    ensures
        args_typing(c1, written, targs) == args_typing(c2, written, targs),
    decreases written,
{
    assert forall|i: int| 0 <= i < targs.len() && i < args_of(written).len() implies value_typing(
        c1,
        args_of(written)[i],
        targs[i],
    ) == value_typing(c2, args_of(written)[i], targs[i]) by {
        assert(decreases_to!(written => args_of(written)[i]));
        lemma_exp_typing_frame(c1, c2, args_of(written)[i], targs[i]);
        lemma_exp_typing_frame(
            c1,
            c2,
            args_of(written)[i],
            TypedExp { loc: targs[i].loc, ty: Type::Nil, kind: targs[i].kind },
        );
        match targs[i].kind {
            TypedExpKind::SomeOf(inner) => lemma_exp_typing_frame(c1, c2, args_of(written)[i], *inner),
            _ => {},
        }
    }
}

/// The counterpart of `lemma_exp_typing_frame` for places.
pub proof fn lemma_var_typing_frame(c1: Checker, c2: Checker, var: Var, te: TypedExp)
    requires
        c1.st.entries@ == c2.st.entries@,
        c1.records == c2.records,
        c1.modules == c2.modules,
    ensures
        var_typing(c1, var, te) == var_typing(c2, var, te),
    decreases var,
{
    match var {
        Var::VarBracket { exp1, exp2, .. } => match te.kind {
            TypedExpKind::Index { base, index } => {
                lemma_exp_typing_frame(c1, c2, *exp1, *base);
                lemma_exp_typing_frame(c1, c2, *exp2, *index);
            },
            _ => {},
        },
        Var::VarDot { exp, .. } => match te.kind {
            TypedExpKind::Field { base, .. } => lemma_exp_typing_frame(c1, c2, *exp, *base),
            _ => {},
        },
        _ => {},
    }
}

/// What the checker promises of a value stored in a destination (a
/// declared name, an assignment target, a result, an argument): the typed
/// form of the written expression, possibly adjusted to an optional
/// destination (see `is_widening_of`).
pub open spec fn value_typing(c: Checker, exp: Exp, te: TypedExp) -> bool {
    ||| exp_typing(c, exp, te)
    ||| exp_typing(c, exp, TypedExp { loc: te.loc, ty: Type::Nil, kind: te.kind })
    ||| match te.kind {
        TypedExpKind::SomeOf(inner) => exp_typing(c, exp, *inner),
        _ => false,
    }
}

/// A widened typed form of `exp` is a value typing of `exp`.
pub proof fn lemma_widened_value_typing(c: Checker, exp: Exp, value: TypedExp, r: TypedExp)
    requires
        exp_typing(c, exp, value),
        is_widening_of(value, r),
    ensures
        value_typing(c, exp, r),
{
    if r != value && value.ty == Type::Nil && r.loc == value.loc && r.kind == value.kind {
        assert(value == TypedExp { loc: r.loc, ty: Type::Nil, kind: r.kind });
    }
}

/// `value_typing` reads only what `exp_typing` reads.
pub proof fn lemma_value_typing_frame(c1: Checker, c2: Checker, exp: Exp, te: TypedExp)
    requires
        c1.st.entries@ == c2.st.entries@,
        c1.records == c2.records,
        c1.modules == c2.modules,
    ensures
        value_typing(c1, exp, te) == value_typing(c2, exp, te),
{
    lemma_exp_typing_frame(c1, c2, exp, te);
    lemma_exp_typing_frame(c1, c2, exp, TypedExp { loc: te.loc, ty: Type::Nil, kind: te.kind });
    match te.kind {
        TypedExpKind::SomeOf(inner) => lemma_exp_typing_frame(c1, c2, exp, *inner),
        _ => {},
    }
}

/// The typed arguments of a checked call are value typings of the written
/// ones.
pub open spec fn call_args_typing(c: Checker, call: Exp, te: TypedExp) -> bool {
    match call {
        Exp::ExpCall { args: written, .. } => match typed_call_args(te) {
            Some(targs) => targs.len() == args_of(written).len() && forall|i: int|
                0 <= i < targs.len() ==> value_typing(c, args_of(written)[i], #[trigger] targs[i]),
            None => false,
        },
        _ => false,
    }
}

/// A call at its own position whose arguments are typed is an expression
/// typing of the call.
pub proof fn lemma_call_exp_typing(c: Checker, call: Exp, te: TypedExp)
    requires
        call is ExpCall,
        te.loc == spec_exp_loc(call),
        call_args_typing(c, call, te),
        match typed_callee(te) {
            Some(callee) => receiver_typing(c, call, callee),
            None => true,
        },
    ensures
        exp_typing(c, call, te),
{
    lemma_args_typing_of_call(c, call, te);
}

/// The arguments part of `call_args_typing`, as `exp_typing` states it.
pub proof fn lemma_args_typing_of_call(c: Checker, call: Exp, te: TypedExp)
    requires
        call_args_typing(c, call, te),
    ensures
        match call {
            Exp::ExpCall { args: written, .. } => args_typing(c, written, typed_call_args(te)->0),
            _ => false,
        },
{
    match call {
        Exp::ExpCall { args: written, .. } => {
            let targs = typed_call_args(te)->0;
            assert forall|i: int| 0 <= i < targs.len() implies {
                ||| exp_typing(c, args_of(written)[i], #[trigger] targs[i])
                ||| exp_typing(
                    c,
                    args_of(written)[i],
                    TypedExp { loc: targs[i].loc, ty: Type::Nil, kind: targs[i].kind },
                )
                ||| match targs[i].kind {
                    TypedExpKind::SomeOf(inner) => exp_typing(c, args_of(written)[i], *inner),
                    _ => false,
                }
            } by {
                assert(value_typing(c, args_of(written)[i], targs[i]));
            }
        },
        _ => {},
    }
}

/// The type an init list is shaped by: the context without its `?` layers.
pub fn strip_option(t: &Type) -> (r: &Type)
    ensures
        r.model() == spec_strip_option(t.model()),
        !(r.model() is Option),
    decreases t,
{
    match t {
        Type::Option { base } => strip_option(&**base),
        _ => t,
    }
}

/// Operands that `..` accepts.
fn is_concat_operand(t: &Type) -> (r: bool)
    ensures
        r == spec_concat_operand(t.model()),
{
    matches!(t, Type::String | Type::Integer | Type::Float | Type::Value)
}

impl Checker {
    /// Types an expression.  `context` is the type the destination expects,
    /// if any; it only decides the shape of an init list and is otherwise
    /// ignored (the caller checks compatibility).  A rejected expression
    /// always leaves at least one error behind.
    #[verifier::loop_isolation(false)]
    pub fn check_exp(&mut self, exp: &Exp, context: Option<&Type>) -> (r: Option<TypedExp>)
        requires
            old(self).wf(),
        ensures
            old(self).exp_step(*final(self)),
            r is None ==> final(self).errors@.len() > old(self).errors@.len(),
            r matches Some(te) ==> exp_typing(*old(self), *exp, te),
            is_operator_exp(*exp) ==> operator_checked(old(self).st, old(self).errors@, final(self).errors@, *exp, r),
            accept(old(self).st, *exp) matches Some(t) ==> r matches Some(te) && te.ty.model() == t && errors_view(
                final(self).errors@,
            ) == errors_view(old(self).errors@),
        decreases exp, 9int,
    {
        self.touch_loc(exp_loc(exp));
        let ghost touched = *self;
        let r = match exp {
            Exp::ExpNil { loc } => Some(TypedExp { loc: *loc, ty: Type::Nil, kind: TypedExpKind::Nil }),
            Exp::ExpBool { loc, value } => Some(
                TypedExp { loc: *loc, ty: Type::Boolean, kind: TypedExpKind::Bool(*value) },
            ),
            Exp::ExpInteger { loc, value } => Some(
                TypedExp { loc: *loc, ty: Type::Integer, kind: TypedExpKind::Integer(*value) },
            ),
            Exp::ExpFloat { loc, bits } => Some(
                TypedExp { loc: *loc, ty: Type::Float, kind: TypedExpKind::Float(*bits) },
            ),
            Exp::ExpString { loc, value } => Some(
                TypedExp { loc: *loc, ty: Type::String, kind: TypedExpKind::String(value.clone()) },
            ),
            Exp::ExpVar { var, .. } => self.check_var(&**var),
            Exp::ExpConcat { .. } => self.check_concat(exp),
            Exp::ExpCall { .. } => {
                let (call, rettypes) = self.check_call(exp)?;
                let adjusted = self.adjust_to_one(call, &rettypes);
                proof { lemma_call_exp_typing(touched, *exp, adjusted); }
                Some(adjusted)
            },
            Exp::ExpInitList { .. } => self.check_init_list(exp, context),
            Exp::ExpUnop { .. } => self.check_unop(exp),
            Exp::ExpBinop { .. } => self.check_binop(exp),
            Exp::ExpCast { .. } => self.check_cast(exp),
            Exp::ExpAdjust { exp: inner, .. } => match &**inner {
                Exp::ExpCall { .. } => {
                    let (call, rettypes) = self.check_call(&**inner)?;
                    Some(self.adjust_to_one(call, &rettypes))
                },
                other => self.check_exp(other, context),
            },
            Exp::ExpExtra { .. } => self.check_extra(exp),
        };
        proof {
            if r is Some {
                lemma_exp_typing_frame(touched, *old(self), *exp, r->0);
            }
        }
        r
    }

    /// `a .. b .. c`: every operand is checked, each must be a string,
    /// integer or float, and the result is a string.
    #[verifier::loop_isolation(false)]
    pub fn check_concat(&mut self, exp: &Exp) -> (r: Option<TypedExp>)
        requires
            old(self).wf(),
            exp is ExpConcat,
        ensures
            old(self).exp_step(*final(self)),
            r is None ==> final(self).errors@.len() > old(self).errors@.len(),
            r matches Some(te) ==> exp_typing(*old(self), *exp, te),
            is_operator_exp(*exp) ==> operator_checked(old(self).st, old(self).errors@, final(self).errors@, *exp, r),
            accept(old(self).st, *exp) matches Some(t) ==> r matches Some(te) && te.ty.model() == t && errors_view(
                final(self).errors@,
            ) == errors_view(old(self).errors@),
        decreases exp, 1int,
    {
        let (loc, exps) = match exp {
            Exp::ExpConcat { loc, exps } => (loc, exps),
            _ => {
                proof { assert(false); }
                return None;
            },
        };
        let ghost start = *self;
        let ghost frag = is_operator_exp(*exp);
        let ghost accepted = accept_concat(old(self).st, exps@, exps@.len() as int);
        let mut typed_exps: Vec<TypedExp> = Vec::new();
        let mut ok = true;
        let mut i: usize = 0;
        while i < exps.len()
            invariant
                i <= exps@.len(),
                self.wf(),
                old(self).exp_step(*self),
                ok ==> typed_exps@.len() == i && forall|j: int|
                    0 <= j < i ==> spec_concat_operand(#[trigger] typed_exps@[j].ty.model())
                        && exp_typing(*old(self), exps@[j], typed_exps@[j]),
                !ok ==> self.errors@.len() > old(self).errors@.len(),
                frag == is_operator_exp(*exp),
                frag ==> all_operator_exps(exps@, exps@.len() as int),
                accepted == accept_concat(old(self).st, exps@, exps@.len() as int),
                accepted ==> ok && errors_view(self.errors@) == errors_view(old(self).errors@),
                frag ==> errors_view(self.errors@) == errors_view(old(self).errors@) + concat_verdict(
                    old(self).st,
                    exps@,
                    i as int,
                ).1,
                frag ==> ok == concat_verdict(old(self).st, exps@, i as int).0,
            decreases exps@.len() - i,
        {
            proof {
                assert(decreases_to!(exps => exps@[i as int]));
                if accepted {
                    lemma_accept_concat_index(old(self).st, exps@, exps@.len() as int, i as int);
                }
                if frag {
                    lemma_all_operator_exps_index(exps@, exps@.len() as int, i as int);
                    lemma_typed_verdict_has_no_errors(old(self).st, exps@[i as int]);
                }
            }
            let ghost before = *self;
            let ghost e_before = errors_view(self.errors@);
            match self.check_exp(&exps[i], None) {
                Some(typed) => {
                    proof {
                        lemma_exp_typing_frame(before, *old(self), exps@[i as int], typed);
                        if accepted {
                            assert(errors_view(self.errors@) =~= e_before);
                        }
                        if frag {
                            assert(errors_view(self.errors@) =~= e_before);
                            let t = typed.ty.model();
                            lemma_concat_assoc(
                                errors_view(old(self).errors@),
                                concat_verdict(old(self).st, exps@, i as int).1,
                                option_errors(t, typed.loc, typed_name(typed)),
                            );
                            lemma_concat_assoc(
                                errors_view(old(self).errors@),
                                concat_verdict(old(self).st, exps@, i as int).1,
                                seq![
                                    (
                                        "operando de `..` precisa ser string, integer ou float, encontrado "@
                                            + spec_type_name(t) + "."@,
                                        typed.loc,
                                    ),
                                ],
                            );
                            lemma_concat_assoc(
                                errors_view(old(self).errors@),
                                concat_verdict(old(self).st, exps@, i as int).1,
                                seq![],
                            );
                        }
                    }
                    if self.reject_option(&typed) {
                        ok = false;
                    } else if !is_concat_operand(&typed.ty) {
                        let found = type_name_of(&typed.ty);
                        self.error(
                            typed.loc,
                            cat3(
                                "operando de `..` precisa ser string, integer ou float, encontrado ",
                                found.as_str(),
                                ".",
                            ),
                        );
                        ok = false;
                    }
                    typed_exps.push(typed);
                },
                None => {
                    proof {
                        if frag {
                            lemma_concat_assoc(
                                errors_view(old(self).errors@),
                                concat_verdict(old(self).st, exps@, i as int).1,
                                op_verdict(old(self).st, exps@[i as int]).1,
                            );
                        }
                    }
                    ok = false;
                },
            }
            i += 1;
        }
        if !ok {
            return None;
        }
        Some(TypedExp { loc: *loc, ty: Type::String, kind: TypedExpKind::Concat(typed_exps) })
    }

    /// Wraps a call with several results so that it gives its first one; a
    /// call with at most one result is left alone.
    pub fn adjust_to_one(&self, call: TypedExp, rettypes: &Vec<Type>) -> (r: TypedExp)
        ensures
            rettypes@.len() <= 1 ==> r == call,
            rettypes@.len() > 1 ==> r.loc == call.loc && r.ty.model() == call.ty.model()
                && r.kind == TypedExpKind::Adjust(Box::new(call)),
            call.kind is Call ==> typed_call_args(r) == typed_call_args(call),
            call.kind is Call ==> typed_callee(r) == typed_callee(call),
    {
        if rettypes.len() <= 1 {
            return call;
        }
        let loc = call.loc;
        let ty = call.ty.copy();
        TypedExp { loc, ty, kind: TypedExpKind::Adjust(Box::new(call)) }
    }

    /// `-x`, `not x`, `#x` and `~x` (see `spec_unop_result`); an optional
    /// operand is rejected before its base type is looked at.
    pub fn check_unop(&mut self, exp: &Exp) -> (r: Option<TypedExp>)
        requires
            old(self).wf(),
            exp is ExpUnop,
        ensures
            old(self).exp_step(*final(self)),
            r is None ==> final(self).errors@.len() > old(self).errors@.len(),
            r matches Some(te) ==> exp_typing(*old(self), *exp, te),
            spec_unop_from_source(exp->ExpUnop_op@) is None ==> r is None,
            is_operator_exp(*exp) ==> operator_checked(old(self).st, old(self).errors@, final(self).errors@, *exp, r),
            accept(old(self).st, *exp) matches Some(t) ==> r matches Some(te) && te.ty.model() == t && errors_view(
                final(self).errors@,
            ) == errors_view(old(self).errors@),
        decreases exp, 1int,
    {
        let (loc, op_str, operand) = match exp {
            Exp::ExpUnop { loc, op, exp } => (*loc, op, &**exp),
            _ => {
                proof { assert(false); }
                return None;
            },
        };
        let op = match UnOp::from_source(op_str.as_str()) {
            Some(op) => op,
            None => {
                let msg = cat3("operador unário `", op_str.as_str(), "` não é suportado nesta fase.");
                proof { lemma_push_is_concat(errors_view(old(self).errors@), (msg@, loc)); }
                self.error(loc, msg);
                return None;
            },
        };
        proof {
            if is_operator_exp(*exp) {
                lemma_typed_verdict_has_no_errors(old(self).st, *operand);
            }
        }
        let typed = self.check_exp(operand, None)?;
        proof {
            if is_operator_exp(*exp) {
                assert(errors_view(self.errors@) =~= errors_view(old(self).errors@));
            }
        }
        if self.reject_option(&typed) {
            return None;
        }
        let found = type_name_of(&typed.ty);
        let ty = match op {
            UnOp::Neg => {
                if !is_numeric(&typed.ty) {
                    self.error(
                        typed.loc,
                        cat3(
                            "operando de `-` unário precisa ser numérico (integer ou float), encontrado ",
                            found.as_str(),
                            ".",
                        ),
                    );
                    return None;
                }
                typed.ty.copy()
            },
            UnOp::Not => {
                if !matches!(typed.ty, Type::Boolean) {
                    self.error(
                        typed.loc,
                        cat3("operando de `not` precisa ser boolean, encontrado ", found.as_str(), "."),
                    );
                    return None;
                }
                Type::Boolean
            },
            UnOp::BNot => {
                if !matches!(typed.ty, Type::Integer) {
                    self.error(
                        typed.loc,
                        cat3("operando de `~` precisa ser integer, encontrado ", found.as_str(), "."),
                    );
                    return None;
                }
                Type::Integer
            },
            UnOp::Len => {
                if !matches!(typed.ty, Type::Array { .. } | Type::String) {
                    self.error(
                        typed.loc,
                        cat3("`#` espera um array ou string, encontrado ", found.as_str(), "."),
                    );
                    return None;
                }
                Type::Integer
            },
        };
        Some(TypedExp { loc, ty, kind: TypedExpKind::Unop { op, exp: Box::new(typed) } })
    }

    /// Reports each operand that is not numeric.
    pub fn check_numeric_operands(&mut self, op_str: &str, lhs: &TypedExp, rhs: &TypedExp) -> (r: bool)
        ensures
            r == (spec_is_numeric(lhs.ty.model()) && spec_is_numeric(rhs.ty.model())),
            old(self).same_scope(*final(self)),
            final(self).uses == old(self).uses,
            !r ==> final(self).errors@.len() > old(self).errors@.len(),
            final(self).errors@.len() >= old(self).errors@.len(),
            errors_view(final(self).errors@) == errors_view(old(self).errors@) + numeric_error(
                op_str@,
                lhs.ty.model(),
                lhs.loc,
            ) + numeric_error(op_str@, rhs.ty.model(), rhs.loc),
    {
        let mut ok = true;
        let ghost e0 = errors_view(self.errors@);
        if !is_numeric(&lhs.ty) {
            let found = type_name_of(&lhs.ty);
            let msg = cat5(
                "operando de `",
                op_str,
                "` precisa ser numérico (integer ou float), encontrado ",
                found.as_str(),
                ".",
            );
            let ghost before = self.errors@;
            self.error(lhs.loc, msg);
            proof { lemma_errors_view_push(before, self.errors@.last()); }
            ok = false;
        }
        let ghost e1 = errors_view(self.errors@);
        proof { assert(e1 == e0 + numeric_error(op_str@, lhs.ty.model(), lhs.loc)); }
        if !is_numeric(&rhs.ty) {
            let found = type_name_of(&rhs.ty);
            let msg = cat5(
                "operando de `",
                op_str,
                "` precisa ser numérico (integer ou float), encontrado ",
                found.as_str(),
                ".",
            );
            let ghost before = self.errors@;
            self.error(rhs.loc, msg);
            proof { lemma_errors_view_push(before, self.errors@.last()); }
            ok = false;
        }
        proof {
            assert(errors_view(self.errors@) == e1 + numeric_error(op_str@, rhs.ty.model(), rhs.loc));
            assert(e0 + numeric_error(op_str@, lhs.ty.model(), lhs.loc) + numeric_error(op_str@, rhs.ty.model(), rhs.loc)
                =~= e1 + numeric_error(op_str@, rhs.ty.model(), rhs.loc));
        }
        ok
    }

    /// Reports each operand that is not `integer` (bitwise operators take no
    /// float).
    pub fn check_integer_operands(&mut self, op_str: &str, lhs: &TypedExp, rhs: &TypedExp) -> (r: bool)
        ensures
            r == (lhs.ty.model() is Integer && rhs.ty.model() is Integer),
            old(self).same_scope(*final(self)),
            final(self).uses == old(self).uses,
            !r ==> final(self).errors@.len() > old(self).errors@.len(),
            final(self).errors@.len() >= old(self).errors@.len(),
            errors_view(final(self).errors@) == errors_view(old(self).errors@) + integer_error(
                op_str@,
                lhs.ty.model(),
                lhs.loc,
            ) + integer_error(op_str@, rhs.ty.model(), rhs.loc),
    {
        let mut ok = true;
        let ghost e0 = errors_view(self.errors@);
        if !matches!(lhs.ty, Type::Integer) {
            let found = type_name_of(&lhs.ty);
            let msg = cat5("operando de `", op_str, "` precisa ser integer, encontrado ", found.as_str(), ".");
            let ghost before = self.errors@;
            self.error(lhs.loc, msg);
            proof { lemma_errors_view_push(before, self.errors@.last()); }
            ok = false;
        }
        let ghost e1 = errors_view(self.errors@);
        proof { assert(e1 == e0 + integer_error(op_str@, lhs.ty.model(), lhs.loc)); }
        if !matches!(rhs.ty, Type::Integer) {
            let found = type_name_of(&rhs.ty);
            let msg = cat5("operando de `", op_str, "` precisa ser integer, encontrado ", found.as_str(), ".");
            let ghost before = self.errors@;
            self.error(rhs.loc, msg);
            proof { lemma_errors_view_push(before, self.errors@.last()); }
            ok = false;
        }
        proof {
            assert(errors_view(self.errors@) == e1 + integer_error(op_str@, rhs.ty.model(), rhs.loc));
            assert(e0 + integer_error(op_str@, lhs.ty.model(), lhs.loc) + integer_error(op_str@, rhs.ty.model(), rhs.loc)
                =~= e1 + integer_error(op_str@, rhs.ty.model(), rhs.loc));
        }
        ok
    }

    /// Rejects every optional operand at once (both sides are looked at).
    pub fn reject_option_operands(&mut self, lhs: &TypedExp, rhs: &TypedExp) -> (r: bool)
        ensures
            r == (lhs.ty.model() is Option || rhs.ty.model() is Option),
            old(self).same_scope(*final(self)),
            final(self).uses == old(self).uses,
            r ==> final(self).errors@.len() > old(self).errors@.len(),
            final(self).errors@.len() >= old(self).errors@.len(),
            errors_view(final(self).errors@) == errors_view(old(self).errors@) + option_errors(
                lhs.ty.model(),
                lhs.loc,
                typed_name(*lhs),
            ) + option_errors(rhs.ty.model(), rhs.loc, typed_name(*rhs)),
    {
        let a = self.reject_option(lhs);
        let b = self.reject_option(rhs);
        proof {
            assert(errors_view(old(self).errors@) + option_errors(lhs.ty.model(), lhs.loc, typed_name(*lhs))
                + option_errors(rhs.ty.model(), rhs.loc, typed_name(*rhs)) =~= errors_view(self.errors@));
        }
        a || b
    }

    /// Binary operators (see `spec_binop_result`).  An optional operand is
    /// only accepted by `==` and `~=`, against `nil`.
    pub fn check_binop(&mut self, exp: &Exp) -> (r: Option<TypedExp>)
        requires
            old(self).wf(),
            exp is ExpBinop,
        ensures
            old(self).exp_step(*final(self)),
            r is None ==> final(self).errors@.len() > old(self).errors@.len(),
            r matches Some(te) ==> exp_typing(*old(self), *exp, te),
            spec_binop_from_source(exp->ExpBinop_op@) is None ==> r is None,
            is_operator_exp(*exp) ==> operator_checked(old(self).st, old(self).errors@, final(self).errors@, *exp, r),
            accept(old(self).st, *exp) matches Some(t) ==> r matches Some(te) && te.ty.model() == t && errors_view(
                final(self).errors@,
            ) == errors_view(old(self).errors@),
        decreases exp, 1int,
    {
        let (loc, op_str, lhs_exp, rhs_exp) = match exp {
            Exp::ExpBinop { loc, lhs, op, rhs } => (*loc, op, &**lhs, &**rhs),
            _ => {
                proof { assert(false); }
                return None;
            },
        };
        let op = match BinOp::from_source(op_str.as_str()) {
            Some(op) => op,
            None => {
                let msg = cat3("operador `", op_str.as_str(), "` não é suportado nesta fase.");
                proof { lemma_push_is_concat(errors_view(old(self).errors@), (msg@, loc)); }
                self.error(loc, msg);
                return None;
            },
        };
        proof {
            if is_operator_exp(*exp) {
                lemma_typed_verdict_has_no_errors(old(self).st, *lhs_exp);
                lemma_typed_verdict_has_no_errors(old(self).st, *rhs_exp);
            }
        }
        let lhs = self.check_exp(lhs_exp, None)?;
        proof {
            if is_operator_exp(*exp) {
                assert(errors_view(self.errors@) =~= errors_view(old(self).errors@));
            }
        }
        let ghost mid = *self;
        let rhs = self.check_exp(rhs_exp, None)?;
        proof {
            lemma_exp_typing_frame(mid, *old(self), *rhs_exp, rhs);
            if is_operator_exp(*exp) {
                assert(errors_view(self.errors@) =~= errors_view(old(self).errors@));
            }
        }
        self.binop_rule(loc, op, op_str.as_str(), lhs, rhs)
    }

    /// The rule table of binary operators on checked operands: the result
    /// type, or exactly the errors of `binop_verdict`.
    pub fn binop_rule(&mut self, loc: Loc, op: BinOp, op_str: &str, lhs: TypedExp, rhs: TypedExp) -> (r: Option<
        TypedExp,
    >)
        requires
            spec_binop_from_source(op_str@) == Some(op),
        ensures
            old(self).same_scope(*final(self)),
            final(self).uses == old(self).uses,
            ({
                let v = binop_verdict(
                    op,
                    op_str@,
                    loc,
                    lhs.ty.model(),
                    lhs.loc,
                    typed_name(lhs),
                    rhs.ty.model(),
                    rhs.loc,
                    typed_name(rhs),
                );
                &&& errors_view(final(self).errors@) == errors_view(old(self).errors@) + v.1
                &&& r is Some <==> v.0 is Some
                &&& r matches Some(te) ==> v.0 == Some(te.ty.model()) && te.loc == loc && spec_binop_result(
                    op,
                    lhs.ty.model(),
                    rhs.ty.model(),
                ) == Some(te.ty.model()) && te.kind == (TypedExpKind::Binop {
                    op,
                    lhs: Box::new(lhs),
                    rhs: Box::new(rhs),
                })
            }),
            r is None ==> final(self).errors@.len() > old(self).errors@.len(),
    {
        let is_equality = matches!(op, BinOp::Eq | BinOp::Ne);
        proof {
            let e = errors_view(self.errors@);
            let (ll, lt, ln) = (lhs.loc, lhs.ty.model(), typed_name(lhs));
            let (rl, rt, rn) = (rhs.loc, rhs.ty.model(), typed_name(rhs));
            lemma_concat_assoc(e, option_errors(lt, ll, ln), option_errors(rt, rl, rn));
            lemma_concat_assoc(e, numeric_error(op_str@, lt, ll), numeric_error(op_str@, rt, rl));
            lemma_concat_assoc(e, integer_error(op_str@, lt, ll), integer_error(op_str@, rt, rl));
            lemma_concat_assoc(e, boolean_error(op_str@, lt, ll), boolean_error(op_str@, rt, rl));
        }
        if !is_equality && self.reject_option_operands(&lhs, &rhs) {
            return None;
        }
        let lname = type_name_of(&lhs.ty);
        let rname = type_name_of(&rhs.ty);
        let ty = match op {
            BinOp::Add | BinOp::Sub | BinOp::Mul | BinOp::Mod | BinOp::IDiv => {
                if !self.check_numeric_operands(op_str, &lhs, &rhs) {
                    return None;
                }
                numeric_result(&lhs.ty, &rhs.ty)
            },
            BinOp::Div | BinOp::Pow => {
                if !self.check_numeric_operands(op_str, &lhs, &rhs) {
                    return None;
                }
                Type::Float
            },
            BinOp::Eq | BinOp::Ne => {
                let presence = (matches!(lhs.ty, Type::Option { .. }) && matches!(rhs.ty, Type::Nil))
                    || (matches!(lhs.ty, Type::Nil) && matches!(rhs.ty, Type::Option { .. }));
                let both_numeric = is_numeric(&lhs.ty) && is_numeric(&rhs.ty);
                let same_primitive = lhs.ty.equals(&rhs.ty) && matches!(
                    lhs.ty,
                    Type::String | Type::Boolean
                );
                if !(presence || both_numeric || same_primitive) {
                    if self.reject_option_operands(&lhs, &rhs) {
                        return None;
                    }
                    let mut msg = cat5("não é possível comparar ", lname.as_str(), " com ", rname.as_str(), " usando `");
                    msg.append(op_str);
                    msg.append("`.");
                    self.error(loc, msg);
                    return None;
                }
                Type::Boolean
            },
            BinOp::Lt | BinOp::Gt | BinOp::Le | BinOp::Ge => {
                let both_numeric = is_numeric(&lhs.ty) && is_numeric(&rhs.ty);
                let both_string = matches!(lhs.ty, Type::String) && matches!(rhs.ty, Type::String);
                if !(both_numeric || both_string) {
                    let mut msg = cat3(
                        "`",
                        op_str,
                        "` compara número com número ou string com string, encontrado ",
                    );
                    msg.append(lname.as_str());
                    msg.append(" e ");
                    msg.append(rname.as_str());
                    msg.append(".");
                    self.error(loc, msg);
                    return None;
                }
                Type::Boolean
            },
            BinOp::And | BinOp::Or => {
                let mut ok = true;
                let ghost e0 = errors_view(self.errors@);
                if !matches!(lhs.ty, Type::Boolean) {
                    let msg = cat5("operando de `", op_str, "` precisa ser boolean, encontrado ", lname.as_str(), ".");
                    self.error(lhs.loc, msg);
                    ok = false;
                }
                let ghost e1 = errors_view(self.errors@);
                proof { assert(e1 =~= e0 + boolean_error(op_str@, lhs.ty.model(), lhs.loc)); }
                if !matches!(rhs.ty, Type::Boolean) {
                    let msg = cat5("operando de `", op_str, "` precisa ser boolean, encontrado ", rname.as_str(), ".");
                    self.error(rhs.loc, msg);
                    ok = false;
                }
                proof {
                    assert(errors_view(self.errors@) =~= e1 + boolean_error(op_str@, rhs.ty.model(), rhs.loc));
                }
                if !ok {
                    return None;
                }
                Type::Boolean
            },
            BinOp::BAnd | BinOp::BOr | BinOp::BXor | BinOp::Shl | BinOp::Shr => {
                if !self.check_integer_operands(op_str, &lhs, &rhs) {
                    return None;
                }
                Type::Integer
            },
        };
        Some(TypedExp { loc, ty, kind: TypedExpKind::Binop { op, lhs: Box::new(lhs), rhs: Box::new(rhs) } })
    }

    /// `exp as T` (see `spec_cast_result`).  The target is resolved before
    /// the operand, so a bad annotation is the error reported.
    pub fn check_cast(&mut self, exp: &Exp) -> (r: Option<TypedExp>)
        requires
            old(self).wf(),
            exp is ExpCast,
        ensures
            old(self).exp_step(*final(self)),
            r is None ==> final(self).errors@.len() > old(self).errors@.len(),
            r matches Some(te) ==> exp_typing(*old(self), *exp, te),
        decreases exp, 1int,
    {
        let (loc, operand, target) = match exp {
            Exp::ExpCast { loc, exp, target } => (*loc, &**exp, target),
            _ => {
                proof { assert(false); }
                return None;
            },
        };
        let target_ty = self.resolve_type(target)?;
        let ghost mid = *self;
        let typed = self.check_exp(operand, Some(&target_ty))?;
        proof { lemma_exp_typing_frame(mid, *old(self), *operand, typed); }
        if typed.ty.equals(&target_ty) {
            return Some(typed);
        }
        let kind = if matches!(typed.ty, Type::Integer) && matches!(target_ty, Type::Float) {
            CastKind::IntToFloat
        } else if matches!(typed.ty, Type::Float) && matches!(target_ty, Type::Integer) {
            CastKind::FloatToInt
        } else if matches!(target_ty, Type::Value) {
            CastKind::ToValue
        } else if matches!(typed.ty, Type::Value) {
            if matches!(target_ty, Type::Boolean | Type::Integer | Type::Float | Type::String) {
                CastKind::FromValue
            } else {
                let alvo = type_name_of(&target_ty);
                self.error(
                    loc,
                    cat3(
                        "`value` só desce para tipo primitivo (`boolean`, `integer`, `float`, `string`), não para ",
                        alvo.as_str(),
                        ".",
                    ),
                );
                return None;
            }
        } else {
            let origem = type_name_of(&typed.ty);
            let alvo = type_name_of(&target_ty);
            let msg = cat5(
                "não existe cast de ",
                origem.as_str(),
                " para ",
                alvo.as_str(),
                ": `as` converte entre números (`integer`/`float`) e de/para `value`, não interpreta texto nem reinterpreta compostos.",
            );
            self.error(loc, msg);
            return None;
        };
        Some(TypedExp { loc, ty: target_ty, kind: TypedExpKind::Cast { kind, exp: Box::new(typed) } })
    }

    /// The `index`-th (from 0) result of a call.
    pub fn check_extra(&mut self, exp: &Exp) -> (r: Option<TypedExp>)
        requires
            old(self).wf(),
            exp is ExpExtra,
        ensures
            old(self).exp_step(*final(self)),
            r is None ==> final(self).errors@.len() > old(self).errors@.len(),
            r matches Some(te) ==> exp_typing(*old(self), *exp, te),
        decreases exp, 5int,
    {
        let (loc, inner, index) = match exp {
            Exp::ExpExtra { loc, exp, index, .. } => (*loc, &**exp, *index),
            _ => {
                proof { assert(false); }
                return None;
            },
        };
        if !matches!(inner, Exp::ExpCall { .. }) {
            self.error(loc, String::from_str("só uma chamada de função produz valores de retorno extras."));
            return None;
        }
        let (call, rettypes) = self.check_call(inner)?;
        if index >= rettypes.len() {
            let mut msg = cat3("a chamada produz ", usize_to_string(rettypes.len()).as_str(), " valor(es) de retorno, mas foi pedido o ");
            msg.append(usize_to_string(index.saturating_add(1)).as_str());
            msg.append("º.");
            self.error(loc, msg);
            return None;
        }
        let ty = rettypes[index].copy();
        proof { lemma_args_typing_of_call(*old(self), *inner, call); }
        Some(TypedExp { loc, ty, kind: TypedExpKind::Extra { exp: Box::new(call), index } })
    }
}

} // verus!
