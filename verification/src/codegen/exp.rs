//! Emission of expressions: each typed expression becomes the text of a Rust
//! expression.  The `spec_` functions say what text each construct becomes;
//! every emitting function returns exactly that text, or `None` on a tree
//! that the checker never produces (an index into a scalar, say).
use vstd::prelude::*;
use crate::builtins::{lookup, spec_lookup_builtin};
use crate::capabilities::{lookup_module, spec_find_function, spec_find_method, spec_lookup_module};
use crate::checker::names::{is_composite, spec_binop_from_source, spec_is_composite};
use crate::checker::typed::{BinOp, Callee, CastKind, TypedExp, TypedExpKind, UnOp};
use crate::codegen::names::{
    binop_symbol, opt_view, spec_binop_symbol, spec_valor_com_buffer_proprio,
    valor_com_buffer_proprio,
};
use crate::codegen::value::{
    emit_to_value_of_var, format_string_literal, spec_debug_text, spec_to_value_of_var,
};
use crate::codegen::scan::views;
use crate::named::contains_str;
use crate::text::{
    cat, cat3, cat5, copy_string, decimal, i64_to_string, signed_decimal, u64_to_string,
    usize_to_string,
};
use crate::types::{models, Type, TypeModel};

verus! {

broadcast use vstd::std_specs::vec::axiom_vec_decreases_to_view;

/// What an emission function needs to know besides the expression itself.
pub struct EmitCtx {
    /// Names of the composite parameters of the function being emitted:
    /// inside its body these names already are `&mut T` references, so they
    /// are never borrowed again.
    pub params: Vec<String>,
    /// Rust text of float literals, by bit pattern.
    pub floats: Vec<(u64, String)>,
}

/// Mathematical value of an `EmitCtx`.
pub struct EmitModel {
    pub params: Seq<Seq<char>>,
    pub floats: Seq<(u64, Seq<char>)>,
}

impl View for EmitCtx {
    type V = EmitModel;

    open spec fn view(&self) -> EmitModel {
        EmitModel {
            params: views(self.params@),
            floats: Seq::new(self.floats@.len(), |i: int| (self.floats@[i].0, self.floats@[i].1@)),
        }
    }
}

/// `n` names a composite parameter of the current function.
pub open spec fn is_param(c: EmitModel, n: Seq<char>) -> bool {
    c.params.contains(n)
}

/// `k` is the first recorded text for the float with these bits.
pub open spec fn first_float(c: EmitModel, bits: u64, k: int) -> bool {
    &&& 0 <= k < c.floats.len()
    &&& c.floats[k].0 == bits
    &&& forall|j: int| 0 <= j < k ==> c.floats[j].0 != bits
}

/// Text of a float literal: the text recorded for its bit pattern, else
/// `f64::from_bits(N)`, which denotes the same number.
pub open spec fn spec_float_text(c: EmitModel, bits: u64) -> Seq<char> {
    if exists|k: int| first_float(c, bits, k) {
        c.floats[choose|k: int| first_float(c, bits, k)].1
    } else {
        "f64::from_bits("@ + decimal(bits as nat) + ")"@
    }
}

/// `p`, then the text, then `s`.
pub open spec fn wrap(p: Seq<char>, x: Option<Seq<char>>, s: Seq<char>) -> Option<Seq<char>> {
    match x {
        Some(t) => Some(p + t + s),
        None => None,
    }
}

/// The text, then `s`.
pub open spec fn with_suffix(x: Option<Seq<char>>, s: Seq<char>) -> Option<Seq<char>> {
    match x {
        Some(t) => Some(t + s),
        None => None,
    }
}

/// `p`, then the text.
pub open spec fn with_prefix(p: Seq<char>, x: Option<Seq<char>>) -> Option<Seq<char>> {
    match x {
        Some(t) => Some(p + t),
        None => None,
    }
}

/// The pieces, all present, joined by `", "`.
pub open spec fn join_items(items: Seq<Option<Seq<char>>>) -> Option<Seq<char>>
    decreases items.len(),
{
    if items.len() == 0 {
        Some(Seq::empty())
    } else {
        match (join_items(items.drop_last()), items.last()) {
            (Some(front), Some(x)) => Some(if items.len() == 1 { x } else { front + ", "@ + x }),
            _ => None,
        }
    }
}

/// One absent piece makes the whole absent.
pub proof fn lemma_join_items_none(items: Seq<Option<Seq<char>>>, i: int)
    requires
        0 <= i < items.len(),
        items[i] is None,
    ensures
        join_items(items) is None,
    decreases items.len(),
{
    if i < items.len() - 1 {
        assert(items.drop_last()[i] == items[i]);
        lemma_join_items_none(items.drop_last(), i);
    }
}

/// Joining one more present piece.
pub proof fn lemma_join_items_push(items: Seq<Option<Seq<char>>>, i: int, front: Seq<char>, x: Seq<char>)
    requires
        0 <= i < items.len(),
        join_items(items.subrange(0, i)) == Some(front),
        items[i] == Some(x),
    ensures
        join_items(items.subrange(0, i + 1)) == Some(if i == 0 { front + x } else { front + ", "@ + x }),
{
    assert(items.subrange(0, i + 1).drop_last() =~= items.subrange(0, i));
    assert(items.subrange(0, i + 1).last() == items[i]);
    if i == 0 {
        assert(front + x =~= x);
    }
}

// ---------------------------------------------------------------------
// What each construct becomes.
// ---------------------------------------------------------------------

/// An expression in operand position: operators come parenthesised, so
/// that Titan's precedence stays explicit at any nesting.
pub open spec fn spec_emit_exp(c: EmitModel, e: TypedExp) -> Option<Seq<char>>
    decreases e, 5int,
{
    match e.kind {
        TypedExpKind::Nil => Some(if e.ty is Option { "None"@ } else { "()"@ }),
        TypedExpKind::Bool(v) => Some(if v { "true"@ } else { "false"@ }),
        TypedExpKind::Integer(v) => Some(signed_decimal(v as int)),
        TypedExpKind::Float(b) => Some(spec_float_text(c, b)),
        TypedExpKind::String(v) => Some(spec_debug_text(v@)),
        TypedExpKind::Var(n) => Some(n@),
        TypedExpKind::Concat(_) => spec_concat(c, e),
        TypedExpKind::Call { .. } => spec_call(c, e),
        TypedExpKind::Binop { op, .. } => if op is Pow {
            spec_pow(c, e)
        } else {
            wrap("("@, spec_binop(c, e), ")"@)
        },
        TypedExpKind::Unop { .. } => wrap("("@, spec_unop(c, e), ")"@),
        TypedExpKind::Index { .. } => spec_index(c, e),
        TypedExpKind::Field { base, name } => with_suffix(spec_emit_exp(c, *base), "."@ + name@),
        TypedExpKind::ArrayLit(_) => spec_array_lit(c, e),
        TypedExpKind::RecordLit { .. } => spec_record_lit(c, e),
        TypedExpKind::MapLit(_) => spec_map_lit(c, e),
        TypedExpKind::Adjust(inner) => with_suffix(spec_emit_exp(c, *inner), ".0"@),
        TypedExpKind::Extra { exp: inner, index } => with_suffix(
            spec_emit_exp(c, *inner),
            "."@ + decimal(index as nat),
        ),
        TypedExpKind::SomeOf(inner) => wrap("Some("@, spec_slot_value(c, inner.ty.model(), *inner), ")"@),
        TypedExpKind::Cast { .. } => wrap("("@, spec_cast(c, e), ")"@),
    }
}

/// An expression in a position that Rust's syntax already delimits (a
/// condition, the value of `let`, an argument): operators without the
/// outer parentheses.
pub open spec fn spec_delimited(c: EmitModel, e: TypedExp) -> Option<Seq<char>>
    decreases e, 6int,
{
    match e.kind {
        TypedExpKind::Binop { op, .. } => if op is Pow { spec_emit_exp(c, e) } else { spec_binop(c, e) },
        TypedExpKind::Unop { .. } => spec_unop(c, e),
        TypedExpKind::Cast { .. } => spec_cast(c, e),
        _ => spec_emit_exp(c, e),
    }
}

/// A `String` the slot owns: a literal is converted, a variable cloned.
pub open spec fn spec_owned_string(c: EmitModel, e: TypedExp) -> Option<Seq<char>>
    decreases e, 8int,
{
    match e.kind {
        TypedExpKind::String(_) => with_suffix(spec_emit_exp(c, e), ".to_string()"@),
        TypedExpKind::Var(_) => with_suffix(spec_emit_exp(c, e), ".clone()"@),
        _ => spec_delimited(c, e),
    }
}

/// Sources that another variable still sees afterwards: storing them
/// copies.
pub open spec fn spec_needs_clone(e: TypedExp) -> bool {
    e.kind is Var || e.kind is Index || e.kind is Field
}

/// The value stored in a slot of type `slot` (a `let`, an assignment, a
/// `return`, an argument): strings owned, copies of places of buffer-owning
/// types cloned.
pub open spec fn spec_slot_value(c: EmitModel, slot: TypeModel, v: TypedExp) -> Option<Seq<char>>
    decreases v, 9int,
{
    if slot is String {
        spec_owned_string(c, v)
    } else if spec_valor_com_buffer_proprio(slot) && spec_needs_clone(v) {
        with_suffix(spec_emit_exp(c, v), ".clone()"@)
    } else {
        spec_delimited(c, v)
    }
}

/// A composite lent for reading.
pub open spec fn spec_borrow_composite(c: EmitModel, e: TypedExp) -> Option<Seq<char>>
    decreases e, 7int,
{
    match e.kind {
        TypedExpKind::Var(n) => if is_param(c, n@) {
            Some(n@)
        } else {
            with_prefix("&"@, spec_emit_exp(c, e))
        },
        _ => with_prefix("&"@, spec_emit_exp(c, e)),
    }
}

/// A `&mut` to the place that `e` denotes.
pub open spec fn spec_place_mut(c: EmitModel, e: TypedExp) -> Option<Seq<char>>
    decreases e, 8int,
{
    match e.kind {
        TypedExpKind::Var(n) => if is_param(c, n@) {
            Some(n@)
        } else {
            with_prefix("&mut "@, spec_place_expr(c, e))
        },
        _ => with_prefix("&mut "@, spec_place_expr(c, e)),
    }
}

/// The place that `e` denotes, without the outer `&mut`: elements are
/// reached through the run-time's `_mut` accessors.
pub open spec fn spec_place_expr(c: EmitModel, e: TypedExp) -> Option<Seq<char>>
    decreases e, 7int,
{
    match e.kind {
        TypedExpKind::Var(n) => if is_param(c, n@) {
            Some("(*"@ + n@ + ")"@)
        } else {
            spec_emit_exp(c, e)
        },
        TypedExpKind::Field { base, name } => with_suffix(spec_place_expr(c, *base), "."@ + name@),
        TypedExpKind::Index { base, index } => match base.ty {
            Type::Array { .. } => match (spec_place_mut(c, *base), spec_delimited(c, *index)) {
                (Some(b), Some(i)) => Some(
                    "(*titan_runtime::array_get_mut("@ + b + ", "@ + i + "))"@,
                ),
                _ => None,
            },
            Type::Dict { .. } => match (
                spec_place_mut(c, *base),
                spec_slot_value(c, index.ty.model(), *index),
            ) {
                (Some(b), Some(k)) => Some("(*titan_runtime::map_get_mut("@ + b + ", &"@ + k + "))"@),
                _ => None,
            },
            _ => None,
        },
        _ => None,
    }
}

/// A numeric operand: an integer where the result is a float is cast.
pub open spec fn spec_numeric_operand(c: EmitModel, e: TypedExp, rt: TypeModel) -> Option<Seq<char>>
    decreases e, 7int,
{
    match spec_emit_exp(c, e) {
        Some(r) => Some(
            if e.ty is Integer && rt is Float {
                "("@ + r + " as f64)"@
            } else {
                r
            },
        ),
        None => None,
    }
}

/// `lhs op rhs` with a Rust operator.
pub open spec fn spec_infix(l: Option<Seq<char>>, op: BinOp, r: Option<Seq<char>>) -> Option<Seq<char>> {
    match (l, r) {
        (Some(a), Some(b)) => Some(a + " "@ + spec_binop_symbol(op) + " "@ + b),
        _ => None,
    }
}

/// A binary operator without the outer parentheses.
pub open spec fn spec_binop(c: EmitModel, e: TypedExp) -> Option<Seq<char>>
    decreases e, 4int,
{
    match e.kind {
        TypedExpKind::Binop { op, lhs, rhs } => if op is IDiv {
            spec_idiv(c, e)
        } else if op is Shl || op is Shr {
            spec_shift(c, e)
        } else if op is Pow {
            None
        } else if op is Add || op is Sub || op is Mul || op is Div || op is Mod {
            spec_infix(
                spec_numeric_operand(c, *lhs, e.ty.model()),
                op,
                spec_numeric_operand(c, *rhs, e.ty.model()),
            )
        } else if op is Eq || op is Ne || op is Lt || op is Gt || op is Le || op is Ge {
            spec_comparison(c, e)
        } else {
            spec_infix(spec_emit_exp(c, *lhs), op, spec_emit_exp(c, *rhs))
        },
        _ => None,
    }
}

/// `//`: floor division, by the run-time for integers and by `.floor()`
/// for floats.
pub open spec fn spec_idiv(c: EmitModel, e: TypedExp) -> Option<Seq<char>>
    decreases e, 3int,
{
    match e.kind {
        TypedExpKind::Binop { lhs, rhs, .. } => if e.ty is Float {
            match (
                spec_numeric_operand(c, *lhs, e.ty.model()),
                spec_numeric_operand(c, *rhs, e.ty.model()),
            ) {
                (Some(l), Some(r)) => Some("("@ + l + " / "@ + r + ").floor()"@),
                _ => None,
            }
        } else {
            match (spec_delimited(c, *lhs), spec_delimited(c, *rhs)) {
                (Some(l), Some(r)) => Some("titan_runtime::idiv("@ + l + ", "@ + r + ")"@),
                _ => None,
            }
        },
        _ => None,
    }
}

/// `<<` and `>>`: shifts of any size, by the run-time.
pub open spec fn spec_shift(c: EmitModel, e: TypedExp) -> Option<Seq<char>>
    decreases e, 3int,
{
    match e.kind {
        TypedExpKind::Binop { op, lhs, rhs } => if op is Shl || op is Shr {
            match (spec_delimited(c, *lhs), spec_delimited(c, *rhs)) {
                (Some(l), Some(r)) => Some(
                    "titan_runtime::"@ + (if op is Shl { "shl"@ } else { "shr"@ }) + "("@ + l
                        + ", "@ + r + ")"@,
                ),
                _ => None,
            }
        } else {
            None
        },
        _ => None,
    }
}

/// A shift read from the source is emitted as the run-time function that
/// shifts the same way: `<<` as `titan_runtime::shl`, `>>` as
/// `titan_runtime::shr`.
pub proof fn law_shift_emitted_as_written(s: Seq<char>, c: EmitModel, e: TypedExp)
    requires
        s == "<<"@ || s == ">>"@,
        e.kind matches TypedExpKind::Binop { op, .. } && spec_binop_from_source(s) == Some(op),
        spec_shift(c, e) is Some,
    ensures
        ("titan_runtime::"@ + (if s == "<<"@ { "shl"@ } else { "shr"@ }) + "("@).is_prefix_of(
            spec_shift(c, e)->0,
        ),
{
    reveal_strlit("+");
    reveal_strlit("-");
    reveal_strlit("*");
    reveal_strlit("/");
    reveal_strlit("%");
    reveal_strlit("^");
    reveal_strlit("==");
    reveal_strlit("~=");
    reveal_strlit("<");
    reveal_strlit(">");
    reveal_strlit("<=");
    reveal_strlit(">=");
    reveal_strlit("and");
    reveal_strlit("or");
    reveal_strlit("//");
    reveal_strlit("&");
    reveal_strlit("|");
    reveal_strlit("~");
    reveal_strlit("<<");
    reveal_strlit(">>");
    assert("+"@[0] == '+');
    assert("-"@[0] == '-');
    assert("*"@[0] == '*');
    assert("/"@[0] == '/');
    assert("%"@[0] == '%');
    assert("^"@[0] == '^');
    assert("=="@[0] == '=');
    assert("=="@[1] == '=');
    assert("~="@[0] == '~');
    assert("~="@[1] == '=');
    assert("<"@[0] == '<');
    assert(">"@[0] == '>');
    assert("<="@[0] == '<');
    assert("<="@[1] == '=');
    assert(">="@[0] == '>');
    assert(">="@[1] == '=');
    assert("or"@[0] == 'o');
    assert("or"@[1] == 'r');
    assert("//"@[0] == '/');
    assert("//"@[1] == '/');
    assert("&"@[0] == '&');
    assert("|"@[0] == '|');
    assert("~"@[0] == '~');
    assert("<<"@[0] == '<');
    assert("<<"@[1] == '<');
    assert(">>"@[0] == '>');
    assert(">>"@[1] == '>');
    assert("<"@.len() == 1);
    assert("<<"@.len() == 2);
    assert(">"@.len() == 1);
    assert(">>"@.len() == 2);
}

/// `x ~= nil` is `x.is_some()` and `x == nil` is `x.is_none()`, with the
/// optional on either side; `None` when the comparison is no such test.
pub open spec fn spec_presence_test(c: EmitModel, e: TypedExp) -> Option<Option<Seq<char>>>
    decreases e, 2int,
{
    match e.kind {
        TypedExpKind::Binop { op, lhs, rhs } => if op is Ne || op is Eq {
            let m = if op is Ne { ".is_some()"@ } else { ".is_none()"@ };
            if lhs.ty is Option && rhs.ty is Nil {
                Some(with_suffix(spec_emit_exp(c, *lhs), m))
            } else if lhs.ty is Nil && rhs.ty is Option {
                Some(with_suffix(spec_emit_exp(c, *rhs), m))
            } else {
                None
            }
        } else {
            None
        },
        _ => None,
    }
}

/// Comparisons: presence tests, numbers (promoted to `f64` when either side
/// is a float), strings (both sides owned), booleans.
pub open spec fn spec_comparison(c: EmitModel, e: TypedExp) -> Option<Seq<char>>
    decreases e, 3int,
{
    match e.kind {
        TypedExpKind::Binop { op, lhs, rhs } => match spec_presence_test(c, e) {
            Some(r) => r,
            None => if !(op is Eq || op is Ne || op is Lt || op is Gt || op is Le || op is Ge) {
                None
            } else if lhs.ty is Integer || lhs.ty is Float {
                let target = if lhs.ty is Float || rhs.ty is Float {
                    TypeModel::Float
                } else {
                    TypeModel::Integer
                };
                spec_infix(
                    spec_numeric_operand(c, *lhs, target),
                    op,
                    spec_numeric_operand(c, *rhs, target),
                )
            } else if lhs.ty is String {
                spec_infix(spec_owned_string(c, *lhs), op, spec_owned_string(c, *rhs))
            } else {
                spec_infix(spec_emit_exp(c, *lhs), op, spec_emit_exp(c, *rhs))
            },
        },
        _ => None,
    }
}

/// `^`: `(lhs as f64).powf(rhs as f64)`.
pub open spec fn spec_pow(c: EmitModel, e: TypedExp) -> Option<Seq<char>>
    decreases e, 4int,
{
    match e.kind {
        TypedExpKind::Binop { lhs, rhs, .. } => match (spec_emit_exp(c, *lhs), spec_emit_exp(c, *rhs)) {
            (Some(l), Some(r)) => Some("("@ + l + " as f64).powf("@ + r + " as f64)"@),
            _ => None,
        },
        _ => None,
    }
}

/// A unary operator without the outer parentheses; `#` asks the run-time
/// for the length of an array or a string.
pub open spec fn spec_unop(c: EmitModel, e: TypedExp) -> Option<Seq<char>>
    decreases e, 4int,
{
    match e.kind {
        TypedExpKind::Unop { op, exp: operand } => match op {
            UnOp::Neg => with_prefix("-"@, spec_emit_exp(c, *operand)),
            UnOp::Not => with_prefix("!"@, spec_emit_exp(c, *operand)),
            UnOp::BNot => with_prefix("!"@, spec_emit_exp(c, *operand)),
            UnOp::Len => match operand.ty {
                Type::Array { .. } => wrap(
                    "titan_runtime::array_len("@,
                    spec_borrow_composite(c, *operand),
                    ")"@,
                ),
                Type::String => wrap(
                    "titan_runtime::string_len(&"@,
                    spec_owned_string(c, *operand),
                    ")"@,
                ),
                _ => None,
            },
        },
        _ => None,
    }
}

/// Run-time function that takes a `value` down to the type `t`.
pub open spec fn spec_from_value_fn(t: TypeModel) -> Option<Seq<char>> {
    match t {
        TypeModel::Boolean => Some("value_to_boolean"@),
        TypeModel::Integer => Some("value_to_integer"@),
        TypeModel::Float => Some("value_to_float"@),
        TypeModel::String => Some("value_to_string"@),
        _ => None,
    }
}

/// Unpacks the `value` `e` into the type `alvo` through the run-time, which
/// aborts when the value holds another variant; only scalars and strings
/// come down.
pub open spec fn spec_from_value(c: EmitModel, alvo: TypeModel, e: TypedExp) -> Option<Seq<char>>
    decreases e, 6int,
{
    match spec_from_value_fn(alvo) {
        Some(f) => wrap("titan_runtime::"@ + f + "(&"@, spec_emit_exp(c, e), ")"@),
        None => None,
    }
}

/// `as`: Rust's own `as` between numbers; packing into and unpacking from
/// a `value` through the run-time.
pub open spec fn spec_cast(c: EmitModel, e: TypedExp) -> Option<Seq<char>>
    decreases e, 4int,
{
    match e.kind {
        TypedExpKind::Cast { kind, exp: inner } => match kind {
            CastKind::IntToFloat => with_suffix(spec_emit_exp(c, *inner), " as f64"@),
            CastKind::FloatToInt => with_suffix(spec_emit_exp(c, *inner), " as i64"@),
            CastKind::ToValue => spec_to_value(c, *inner),
            CastKind::FromValue => spec_from_value(c, e.ty.model(), *inner),
        },
        _ => None,
    }
}

/// Packs `e`, of its own type, into a `titan_runtime::Value`.
pub open spec fn spec_to_value(c: EmitModel, e: TypedExp) -> Option<Seq<char>>
    decreases e, 10int,
{
    match e.ty {
        Type::Nil => Some("titan_runtime::Value::Nil"@),
        Type::Boolean => wrap("titan_runtime::Value::Boolean("@, spec_delimited(c, e), ")"@),
        Type::Integer => wrap("titan_runtime::Value::Integer("@, spec_delimited(c, e), ")"@),
        Type::Float => wrap("titan_runtime::Value::Float("@, spec_delimited(c, e), ")"@),
        Type::String => wrap("titan_runtime::Value::String("@, spec_owned_string(c, e), ")"@),
        Type::Array { elem } => match (
            spec_emit_exp(c, e),
            spec_to_value_of_var(elem.model(), "titan_e"@),
        ) {
            (Some(x), Some(i)) => Some(
                "titan_runtime::Value::Array("@ + x + ".iter().map(|titan_e| "@ + i
                    + ").collect())"@,
            ),
            _ => None,
        },
        Type::Dict { keys, values } => match (
            spec_emit_exp(c, e),
            spec_to_value_of_var(keys.model(), "titan_k"@),
            spec_to_value_of_var(values.model(), "titan_v"@),
        ) {
            (Some(x), Some(k), Some(v)) => Some(
                "titan_runtime::Value::Map("@ + x + ".iter().map(|(titan_k, titan_v)| ("@ + k
                    + ", "@ + v + ")).collect())"@,
            ),
            _ => None,
        },
        Type::Record { .. } => match (
            spec_borrow_composite(c, e),
            spec_to_value_of_var(e.ty.model(), "titan_r"@),
        ) {
            (Some(b), Some(v)) => Some("{ let titan_r = "@ + b + "; "@ + v + " }"@),
            _ => None,
        },
        Type::Option { base } => match (
            spec_borrow_composite(c, e),
            spec_to_value_of_var(base.model(), "titan_o"@),
        ) {
            (Some(b), Some(i)) => Some(
                "match "@ + b + " { Some(titan_o) => titan_runtime::Value::Option(Box::new("@ + i
                    + ")), None => titan_runtime::Value::Nil }"@,
            ),
            _ => None,
        },
        _ => None,
    }
}

/// A string the run-time borrows as `&str`: numbers through
/// `to_string()`.
pub open spec fn spec_borrow_runtime_str(c: EmitModel, e: TypedExp) -> Option<Seq<char>>
    decreases e, 9int,
{
    if e.ty is Integer || e.ty is Float {
        wrap("&"@, spec_emit_exp(c, e), ".to_string()"@)
    } else {
        with_prefix("&"@, spec_owned_string(c, e))
    }
}

/// `..`: the run-time's binary `concat`, chained pair by pair from the left.
pub open spec fn spec_concat(c: EmitModel, e: TypedExp) -> Option<Seq<char>>
    decreases e, 4int,
{
    match e.kind {
        TypedExpKind::Concat(exps) => spec_concat_chain(c, exps@),
        _ => None,
    }
}

/// The chain of `concat` calls over `es`.
pub open spec fn spec_concat_chain(c: EmitModel, es: Seq<TypedExp>) -> Option<Seq<char>>
    decreases es, 0int,
{
    if es.len() == 0 {
        None
    } else if es.len() == 1 {
        spec_borrow_runtime_str(c, es[0])
    } else {
        match (spec_concat_chain(c, es.drop_last()), spec_borrow_runtime_str(c, es.last())) {
            (Some(acc), Some(r)) => Some(
                "titan_runtime::concat("@ + (if es.len() == 2 { acc } else { "&"@ + acc }) + ", "@
                    + r + ")"@,
            ),
            _ => None,
        }
    }
}

/// An argument of a call to a Titan function: strings owned, composites as
/// `&mut` places, the rest as slot values.
pub open spec fn spec_direct_arg(c: EmitModel, a: TypedExp) -> Option<Seq<char>>
    decreases a, 10int,
{
    if a.ty is String {
        spec_owned_string(c, a)
    } else if spec_is_composite(a.ty.model()) {
        spec_place_mut(c, a)
    } else {
        spec_slot_value(c, a.ty.model(), a)
    }
}

/// The arguments of a call to a Titan function.
pub open spec fn spec_direct_args(c: EmitModel, args: Seq<TypedExp>) -> Option<Seq<char>>
    decreases args, 1int,
{
    join_items(spec_direct_arg_items(c, args))
}

/// Each argument of a call to a Titan function.
pub open spec fn spec_direct_arg_items(c: EmitModel, args: Seq<TypedExp>) -> Seq<Option<Seq<char>>>
    decreases args, 0int,
{
    Seq::new(args.len(), |i: int| if 0 <= i < args.len() { spec_direct_arg(c, args[i]) } else { None })
}

/// An argument rendered against the declared parameter type `p`: the
/// run-time borrows strings, composites go as `&mut` places.
pub open spec fn spec_arg_by_param(c: EmitModel, a: TypedExp, p: TypeModel) -> Option<Seq<char>>
    decreases a, 10int,
{
    if p is String {
        spec_borrow_runtime_str(c, a)
    } else if spec_is_composite(p) {
        spec_place_mut(c, a)
    } else {
        spec_slot_value(c, p, a)
    }
}

/// Number of arguments that meet a parameter.
pub open spec fn zip_len(a: int, b: int) -> int {
    if a < b { a } else { b }
}

/// The arguments paired with the parameters, position by position.
pub open spec fn spec_args_by_param(c: EmitModel, args: Seq<TypedExp>, params: Seq<TypeModel>) -> Option<Seq<char>>
    decreases args, 1int,
{
    join_items(spec_arg_by_param_items(c, args, params))
}

/// Each argument paired with its parameter.
pub open spec fn spec_arg_by_param_items(c: EmitModel, args: Seq<TypedExp>, params: Seq<TypeModel>) -> Seq<Option<Seq<char>>>
    decreases args, 0int,
{
    (
        Seq::new(
            zip_len(args.len() as int, params.len() as int) as nat,
            |i: int| if 0 <= i < args.len() && i < params.len() { spec_arg_by_param(c, args[i], params[i]) } else { None },
        )
    )
}

/// A call: builtins and module functions by their Rust path, Titan
/// functions mangled, methods with the receiver first, foreign functions
/// by `spec_foreign_call`.
pub open spec fn spec_call(c: EmitModel, e: TypedExp) -> Option<Seq<char>>
    decreases e, 4int,
{
    match e.kind {
        TypedExpKind::Call { callee, args } => match callee {
            Callee::Direct(n) => match spec_lookup_builtin(n@) {
                Some(b) => wrap(b.rust_path + "("@, spec_args_by_param(c, args@, b.params), ")"@),
                None => wrap("titan_"@ + n@ + "("@, spec_direct_args(c, args@), ")"@),
            },
            Callee::Foreign(_) => spec_foreign_call(c, e),
            Callee::Module { module, name } => match spec_lookup_module(module@) {
                Some(m) => match spec_find_function(m, name@) {
                    Some(f) => wrap(f.rust_path + "("@, spec_args_by_param(c, args@, f.params), ")"@),
                    None => None,
                },
                None => None,
            },
            Callee::Method { recv, module, name } => match spec_lookup_module(module@) {
                Some(m) => match recv.ty {
                    Type::Opaque { name: rt, .. } => match spec_find_method(m, rt@, name@) {
                        Some(f) => match (
                            spec_place_mut(c, *recv),
                            spec_args_by_param(c, args@, f.params),
                        ) {
                            (Some(r), Some(a)) => Some(
                                f.rust_path + "("@ + r + (if zip_len(
                                    args@.len() as int,
                                    f.params.len() as int,
                                ) == 0 {
                                    Seq::empty()
                                } else {
                                    ", "@ + a
                                }) + ")"@,
                            ),
                            _ => None,
                        },
                        None => None,
                    },
                    _ => None,
                },
                None => None,
            },
        },
        _ => None,
    }
}

/// Argument `i` of a call to a foreign function: a string goes as the
/// pointer of the C string bound for it.
pub open spec fn spec_ffi_arg(c: EmitModel, a: TypedExp, i: int) -> Option<Seq<char>>
    decreases a, 10int,
{
    if a.ty is String {
        Some("__titan_ffi_"@ + decimal(i as nat) + ".as_ptr()"@)
    } else {
        spec_delimited(c, a)
    }
}

/// The arguments of a call to a foreign function.
pub open spec fn spec_ffi_args(c: EmitModel, args: Seq<TypedExp>) -> Option<Seq<char>>
    decreases args, 1int,
{
    join_items(spec_ffi_arg_items(c, args))
}

/// Each argument of a call to a foreign function.
pub open spec fn spec_ffi_arg_items(c: EmitModel, args: Seq<TypedExp>) -> Seq<Option<Seq<char>>>
    decreases args, 0int,
{
    Seq::new(args.len(), |i: int| if 0 <= i < args.len() { spec_ffi_arg(c, args[i], i) } else { None })
}

/// The `let` that keeps the C string of each string argument alive during
/// the call, separated by spaces.
pub open spec fn spec_ffi_bindings(c: EmitModel, args: Seq<TypedExp>) -> Option<Seq<char>>
    decreases args, 0int,
{
    if args.len() == 0 {
        Some(Seq::empty())
    } else {
        match spec_ffi_bindings(c, args.drop_last()) {
            Some(front) => if args.last().ty is String {
                match spec_owned_string(c, args.last()) {
                    Some(o) => {
                        let b = "let __titan_ffi_"@ + decimal((args.len() - 1) as nat)
                            + " = titan_runtime::ffi_cstring(&"@ + o + ");"@;
                        Some(if front.len() == 0 { b } else { front + " "@ + b })
                    },
                    None => None,
                }
            } else {
                Some(front)
            },
            None => None,
        }
    }
}

/// A call to a `foreign function`: unmangled, inside `unsafe`, with string
/// arguments converted to C strings bound around the call.
pub open spec fn spec_foreign_call(c: EmitModel, e: TypedExp) -> Option<Seq<char>>
    decreases e, 3int,
{
    match e.kind {
        TypedExpKind::Call { callee: Callee::Foreign(n), args } => match (
            spec_ffi_bindings(c, args@),
            spec_ffi_args(c, args@),
        ) {
            (Some(bs), Some(xs)) => {
                let chamada = if e.ty is String {
                    "unsafe { titan_runtime::ffi_string("@ + n@ + "("@ + xs + ")) }"@
                } else {
                    "unsafe { "@ + n@ + "("@ + xs + ") }"@
                };
                Some(if bs.len() == 0 { chamada } else { "({ "@ + bs + " "@ + chamada + " })"@ })
            },
            _ => None,
        },
        _ => None,
    }
}

/// `v[i]` read through the run-time's checked accessors.
pub open spec fn spec_index(c: EmitModel, e: TypedExp) -> Option<Seq<char>>
    decreases e, 4int,
{
    match e.kind {
        TypedExpKind::Index { base, index } => match base.ty {
            Type::Array { .. } => match (spec_borrow_composite(c, *base), spec_delimited(c, *index)) {
                (Some(b), Some(i)) => Some("titan_runtime::array_get("@ + b + ", "@ + i + ")"@),
                _ => None,
            },
            Type::Dict { .. } => match (
                spec_borrow_composite(c, *base),
                spec_slot_value(c, index.ty.model(), *index),
            ) {
                (Some(b), Some(k)) => Some("titan_runtime::map_get("@ + b + ", &"@ + k + ")"@),
                _ => None,
            },
            _ => None,
        },
        _ => None,
    }
}

/// Each expression as the value of a slot of its own type.
pub open spec fn spec_slots(c: EmitModel, es: Seq<TypedExp>) -> Option<Seq<char>>
    decreases es, 1int,
{
    join_items(spec_slot_items(c, es))
}

/// Each expression as the value of a slot of its own type.
pub open spec fn spec_slot_items(c: EmitModel, es: Seq<TypedExp>) -> Seq<Option<Seq<char>>>
    decreases es, 0int,
{
    Seq::new(es.len(), |i: int| if 0 <= i < es.len() { spec_slot_value(c, es[i].ty.model(), es[i]) } else { None })
}

/// An array literal: `vec![..]`.
pub open spec fn spec_array_lit(c: EmitModel, e: TypedExp) -> Option<Seq<char>>
    decreases e, 4int,
{
    match e.kind {
        TypedExpKind::ArrayLit(elems) => wrap("vec!["@, spec_slots(c, elems@), "]"@),
        _ => None,
    }
}

/// One field of a record literal.
pub open spec fn spec_record_field(c: EmitModel, f: (String, TypedExp)) -> Option<Seq<char>>
    decreases f, 0int,
{
    with_prefix(f.0@ + ": "@, spec_slot_value(c, f.1.ty.model(), f.1))
}

/// The fields of a record literal.
pub open spec fn spec_record_fields(c: EmitModel, fs: Seq<(String, TypedExp)>) -> Option<Seq<char>>
    decreases fs, 2int,
{
    join_items(spec_record_field_items(c, fs))
}

/// Each field of a record literal.
pub open spec fn spec_record_field_items(c: EmitModel, fs: Seq<(String, TypedExp)>) -> Seq<Option<Seq<char>>>
    decreases fs, 1int,
{
    Seq::new(fs.len(), |i: int| if 0 <= i < fs.len() { spec_record_field(c, fs[i]) } else { None })
}

/// A record literal: `Name { field: value, .. }`, fields in declaration
/// order as the checker gives them.
pub open spec fn spec_record_lit(c: EmitModel, e: TypedExp) -> Option<Seq<char>>
    decreases e, 4int,
{
    match e.kind {
        TypedExpKind::RecordLit { ty_name, fields } => wrap(
            ty_name@ + " { "@,
            spec_record_fields(c, fields@),
            " }"@,
        ),
        _ => None,
    }
}

/// One entry of a map literal.
pub open spec fn spec_map_entry(c: EmitModel, kv: (TypedExp, TypedExp)) -> Option<Seq<char>>
    decreases kv, 0int,
{
    match (spec_slot_value(c, kv.0.ty.model(), kv.0), spec_slot_value(c, kv.1.ty.model(), kv.1)) {
        (Some(k), Some(v)) => Some("("@ + k + ", "@ + v + ")"@),
        _ => None,
    }
}

/// The entries of a map literal.
pub open spec fn spec_map_entries(c: EmitModel, es: Seq<(TypedExp, TypedExp)>) -> Option<Seq<char>>
    decreases es, 2int,
{
    join_items(spec_map_entry_items(c, es))
}

/// Each entry of a map literal.
pub open spec fn spec_map_entry_items(c: EmitModel, es: Seq<(TypedExp, TypedExp)>) -> Seq<Option<Seq<char>>>
    decreases es, 1int,
{
    Seq::new(es.len(), |i: int| if 0 <= i < es.len() { spec_map_entry(c, es[i]) } else { None })
}

/// A map literal: `HashMap::from([(k, v), ..])`.
pub open spec fn spec_map_lit(c: EmitModel, e: TypedExp) -> Option<Seq<char>>
    decreases e, 4int,
{
    match e.kind {
        TypedExpKind::MapLit(entries) => wrap(
            "std::collections::HashMap::from(["@,
            spec_map_entries(c, entries@),
            "])"@,
        ),
        _ => None,
    }
}

// ---------------------------------------------------------------------
// Emission.
// ---------------------------------------------------------------------

impl EmitCtx {
    /// Whether `name` is a composite parameter of the current function.
    pub fn e_parametro_composto(&self, name: &str) -> (r: bool)
        ensures
            r == is_param(self@, name@),
    {
        let r = contains_str(&self.params, name);
        proof {
            if r {
                let k = choose|k: int| 0 <= k < self.params@.len() && self.params@[k]@ == name@;
                assert(self@.params[k] == name@);
            } else {
                assert forall|k: int| 0 <= k < self@.params.len() implies self@.params[k] != name@ by {
                    assert(self@.params[k] == self.params@[k]@);
                }
            }
        }
        r
    }
}

/// Text of a float literal (see `spec_float_text`).
fn float_text(ctx: &EmitCtx, bits: u64) -> (r: String)
    ensures
        r@ == spec_float_text(ctx@, bits),
{
    let mut i: usize = 0;
    while i < ctx.floats.len()
        invariant
            i <= ctx.floats@.len(),
            forall|j: int| 0 <= j < i ==> ctx@.floats[j].0 != bits,
        decreases ctx.floats@.len() - i,
    {
        proof { assert(ctx@.floats[i as int] == (ctx.floats@[i as int].0, ctx.floats@[i as int].1@)); }
        if ctx.floats[i].0 == bits {
            proof {
                assert(first_float(ctx@, bits, i as int));
                let w = choose|k: int| first_float(ctx@, bits, k);
                assert(w == i as int) by {
                    if w > i as int {
                        assert(ctx@.floats[i as int].0 == bits);
                    }
                }
            }
            return copy_string(&ctx.floats[i].1);
        }
        i += 1;
    }
    cat3("f64::from_bits(", u64_to_string(bits).as_str(), ")")
}

/// `l op r` with the Rust symbol of `op`.
fn infix(l: &str, op: BinOp, r: &str) -> (s: String)
    requires
        !(op is Pow || op is IDiv || op is Shl || op is Shr),
    ensures
        s@ == l@ + " "@ + spec_binop_symbol(op) + " "@ + r@,
{
    cat5(l, " ", binop_symbol(op), " ", r)
}

/// An expression in operand position (see `spec_emit_exp`).
pub fn emit_exp(e: &TypedExp, ctx: &EmitCtx) -> (r: Option<String>)
    ensures
        opt_view(r) == spec_emit_exp(ctx@, *e),
    decreases e, 5int,
{
    match &e.kind {
        TypedExpKind::Nil => {
            if matches!(e.ty, Type::Option { .. }) {
                Some(String::from_str("None"))
            } else {
                Some(String::from_str("()"))
            }
        },
        TypedExpKind::Bool(v) => {
            if *v {
                Some(String::from_str("true"))
            } else {
                Some(String::from_str("false"))
            }
        },
        TypedExpKind::Integer(v) => Some(i64_to_string(*v)),
        TypedExpKind::Float(b) => Some(float_text(ctx, *b)),
        TypedExpKind::String(v) => Some(format_string_literal(v.as_str())),
        TypedExpKind::Var(n) => Some(copy_string(n)),
        TypedExpKind::Concat(_) => emit_concat(e, ctx),
        TypedExpKind::Call { .. } => emit_call(e, ctx),
        TypedExpKind::Binop { op, .. } => {
            if matches!(op, BinOp::Pow) {
                emit_pow(e, ctx)
            } else {
                let b = emit_binop(e, ctx)?;
                Some(cat3("(", b.as_str(), ")"))
            }
        },
        TypedExpKind::Unop { .. } => {
            let u = emit_unop(e, ctx)?;
            Some(cat3("(", u.as_str(), ")"))
        },
        TypedExpKind::Index { .. } => emit_index(e, ctx),
        TypedExpKind::Field { base, name } => {
            let b = emit_exp(&**base, ctx)?;
            let s = cat3(b.as_str(), ".", name.as_str());
            assert(s@ =~= b@ + ("."@ + name@));
            Some(s)
        },
        TypedExpKind::ArrayLit(_) => emit_array_lit(e, ctx),
        TypedExpKind::RecordLit { .. } => emit_record_lit(e, ctx),
        TypedExpKind::MapLit(_) => emit_map_lit(e, ctx),
        TypedExpKind::Adjust(inner) => {
            let s = emit_exp(&**inner, ctx)?;
            Some(cat(s.as_str(), ".0"))
        },
        TypedExpKind::Extra { exp: inner, index } => {
            let s = emit_exp(&**inner, ctx)?;
            let r = cat3(s.as_str(), ".", usize_to_string(*index).as_str());
            assert(r@ =~= s@ + ("."@ + decimal(*index as nat)));
            Some(r)
        },
        TypedExpKind::SomeOf(inner) => {
            let s = emit_slot_value(&inner.ty, &**inner, ctx)?;
            Some(cat3("Some(", s.as_str(), ")"))
        },
        TypedExpKind::Cast { .. } => {
            let s = emit_cast(e, ctx)?;
            Some(cat3("(", s.as_str(), ")"))
        },
    }
}

/// An expression in a delimited position (see `spec_delimited`).
pub fn emit_delimited_exp(e: &TypedExp, ctx: &EmitCtx) -> (r: Option<String>)
    ensures
        opt_view(r) == spec_delimited(ctx@, *e),
    decreases e, 6int,
{
    match &e.kind {
        TypedExpKind::Binop { op, .. } => {
            if matches!(op, BinOp::Pow) {
                emit_exp(e, ctx)
            } else {
                emit_binop(e, ctx)
            }
        },
        TypedExpKind::Unop { .. } => emit_unop(e, ctx),
        TypedExpKind::Cast { .. } => emit_cast(e, ctx),
        _ => emit_exp(e, ctx),
    }
}

/// An owned `String` (see `spec_owned_string`).
pub fn emit_owned_string(e: &TypedExp, ctx: &EmitCtx) -> (r: Option<String>)
    ensures
        opt_view(r) == spec_owned_string(ctx@, *e),
    decreases e, 8int,
{
    match &e.kind {
        TypedExpKind::String(_) => {
            let s = emit_exp(e, ctx)?;
            Some(cat(s.as_str(), ".to_string()"))
        },
        TypedExpKind::Var(_) => {
            let s = emit_exp(e, ctx)?;
            Some(cat(s.as_str(), ".clone()"))
        },
        _ => emit_delimited_exp(e, ctx),
    }
}

/// Whether storing `e` copies a place that another variable still sees.
pub fn precisa_clone(e: &TypedExp) -> (r: bool)
    ensures
        r == spec_needs_clone(*e),
{
    matches!(e.kind, TypedExpKind::Var(_) | TypedExpKind::Index { .. } | TypedExpKind::Field { .. })
}

/// The value stored in a slot of type `slot_ty` (see `spec_slot_value`).
pub fn emit_slot_value(slot_ty: &Type, v: &TypedExp, ctx: &EmitCtx) -> (r: Option<String>)
    ensures
        opt_view(r) == spec_slot_value(ctx@, slot_ty.model(), *v),
    decreases v, 9int,
{
    if matches!(slot_ty, Type::String) {
        emit_owned_string(v, ctx)
    } else if valor_com_buffer_proprio(slot_ty) && precisa_clone(v) {
        let s = emit_exp(v, ctx)?;
        Some(cat(s.as_str(), ".clone()"))
    } else {
        emit_delimited_exp(v, ctx)
    }
}

/// A composite lent for reading (see `spec_borrow_composite`).
pub fn borrow_composite(e: &TypedExp, ctx: &EmitCtx) -> (r: Option<String>)
    ensures
        opt_view(r) == spec_borrow_composite(ctx@, *e),
    decreases e, 7int,
{
    match &e.kind {
        TypedExpKind::Var(n) => {
            if ctx.e_parametro_composto(n.as_str()) {
                return Some(copy_string(n));
            }
        },
        _ => {},
    }
    let s = emit_exp(e, ctx)?;
    Some(cat("&", s.as_str()))
}

/// A `&mut` to the place `e` denotes (see `spec_place_mut`).
pub fn emit_place_mut(e: &TypedExp, ctx: &EmitCtx) -> (r: Option<String>)
    ensures
        opt_view(r) == spec_place_mut(ctx@, *e),
    decreases e, 8int,
{
    match &e.kind {
        TypedExpKind::Var(n) => {
            if ctx.e_parametro_composto(n.as_str()) {
                return Some(copy_string(n));
            }
        },
        _ => {},
    }
    let s = emit_place_expr(e, ctx)?;
    Some(cat("&mut ", s.as_str()))
}

/// The place `e` denotes (see `spec_place_expr`).
pub fn emit_place_expr(e: &TypedExp, ctx: &EmitCtx) -> (r: Option<String>)
    ensures
        opt_view(r) == spec_place_expr(ctx@, *e),
    decreases e, 7int,
{
    match &e.kind {
        TypedExpKind::Var(n) => {
            if ctx.e_parametro_composto(n.as_str()) {
                Some(cat3("(*", n.as_str(), ")"))
            } else {
                emit_exp(e, ctx)
            }
        },
        TypedExpKind::Field { base, name } => {
            let b = emit_place_expr(&**base, ctx)?;
            let s = cat3(b.as_str(), ".", name.as_str());
            assert(s@ =~= b@ + ("."@ + name@));
            Some(s)
        },
        TypedExpKind::Index { base, index } => match &base.ty {
            Type::Array { .. } => {
                let b = emit_place_mut(&**base, ctx)?;
                let i = emit_delimited_exp(&**index, ctx)?;
                Some(cat5("(*titan_runtime::array_get_mut(", b.as_str(), ", ", i.as_str(), "))"))
            },
            Type::Dict { .. } => {
                let b = emit_place_mut(&**base, ctx)?;
                let k = emit_slot_value(&index.ty, &**index, ctx)?;
                Some(cat5("(*titan_runtime::map_get_mut(", b.as_str(), ", &", k.as_str(), "))"))
            },
            _ => None,
        },
        _ => None,
    }
}

/// A numeric operand (see `spec_numeric_operand`).
pub fn emit_numeric_operand(e: &TypedExp, result_ty: &Type, ctx: &EmitCtx) -> (r: Option<String>)
    ensures
        opt_view(r) == spec_numeric_operand(ctx@, *e, result_ty.model()),
    decreases e, 7int,
{
    let r = emit_exp(e, ctx)?;
    if matches!(e.ty, Type::Integer) && matches!(result_ty, Type::Float) {
        Some(cat3("(", r.as_str(), " as f64)"))
    } else {
        Some(r)
    }
}

/// A binary operator without the outer parentheses (see `spec_binop`).
pub fn emit_binop(e: &TypedExp, ctx: &EmitCtx) -> (r: Option<String>)
    ensures
        opt_view(r) == spec_binop(ctx@, *e),
    decreases e, 4int,
{
    match &e.kind {
        TypedExpKind::Binop { op, lhs, rhs } => {
            let op = *op;
            match op {
                BinOp::IDiv => emit_idiv(e, ctx),
                BinOp::Shl | BinOp::Shr => emit_shift(e, ctx),
                BinOp::Pow => None,
                BinOp::Add | BinOp::Sub | BinOp::Mul | BinOp::Div | BinOp::Mod => {
                    let l = emit_numeric_operand(&**lhs, &e.ty, ctx)?;
                    let r = emit_numeric_operand(&**rhs, &e.ty, ctx)?;
                    Some(infix(l.as_str(), op, r.as_str()))
                },
                BinOp::Eq | BinOp::Ne | BinOp::Lt | BinOp::Gt | BinOp::Le | BinOp::Ge => {
                    emit_comparison(e, ctx)
                },
                _ => {
                    let l = emit_exp(&**lhs, ctx)?;
                    let r = emit_exp(&**rhs, ctx)?;
                    Some(infix(l.as_str(), op, r.as_str()))
                },
            }
        },
        _ => None,
    }
}

/// `//` (see `spec_idiv`).
pub fn emit_idiv(e: &TypedExp, ctx: &EmitCtx) -> (r: Option<String>)
    ensures
        opt_view(r) == spec_idiv(ctx@, *e),
    decreases e, 3int,
{
    match &e.kind {
        TypedExpKind::Binop { lhs, rhs, .. } => {
            if matches!(e.ty, Type::Float) {
                let l = emit_numeric_operand(&**lhs, &e.ty, ctx)?;
                let r = emit_numeric_operand(&**rhs, &e.ty, ctx)?;
                Some(cat5("(", l.as_str(), " / ", r.as_str(), ").floor()"))
            } else {
                let l = emit_delimited_exp(&**lhs, ctx)?;
                let r = emit_delimited_exp(&**rhs, ctx)?;
                Some(cat5("titan_runtime::idiv(", l.as_str(), ", ", r.as_str(), ")"))
            }
        },
        _ => None,
    }
}

/// `<<` and `>>` (see `spec_shift`).
pub fn emit_shift(e: &TypedExp, ctx: &EmitCtx) -> (r: Option<String>)
    ensures
        opt_view(r) == spec_shift(ctx@, *e),
    decreases e, 3int,
{
    match &e.kind {
        TypedExpKind::Binop { op, lhs, rhs } => {
            if !(matches!(op, BinOp::Shl) || matches!(op, BinOp::Shr)) {
                return None;
            }
            let func = if matches!(op, BinOp::Shl) { "shl" } else { "shr" };
            let l = emit_delimited_exp(&**lhs, ctx)?;
            let r = emit_delimited_exp(&**rhs, ctx)?;
            let mut s = cat3("titan_runtime::", func, "(");
            s.append(l.as_str());
            s.append(", ");
            s.append(r.as_str());
            s.append(")");
            Some(s)
        },
        _ => None,
    }
}

/// A presence test, if the comparison is one (see `spec_presence_test`).
pub fn emit_presence_test(e: &TypedExp, ctx: &EmitCtx) -> (r: Option<Option<String>>)
    ensures
        match r {
            Some(x) => spec_presence_test(ctx@, *e) == Some(opt_view(x)),
            None => spec_presence_test(ctx@, *e) is None,
        },
    decreases e, 2int,
{
    match &e.kind {
        TypedExpKind::Binop { op, lhs, rhs } => {
            if !(matches!(op, BinOp::Ne) || matches!(op, BinOp::Eq)) {
                return None;
            }
            let m = if matches!(op, BinOp::Ne) { ".is_some()" } else { ".is_none()" };
            if matches!(lhs.ty, Type::Option { .. }) && matches!(rhs.ty, Type::Nil) {
                Some(
                    match emit_exp(&**lhs, ctx) {
                        Some(s) => Some(cat(s.as_str(), m)),
                        None => None,
                    },
                )
            } else if matches!(lhs.ty, Type::Nil) && matches!(rhs.ty, Type::Option { .. }) {
                Some(
                    match emit_exp(&**rhs, ctx) {
                        Some(s) => Some(cat(s.as_str(), m)),
                        None => None,
                    },
                )
            } else {
                None
            }
        },
        _ => None,
    }
}

/// A comparison (see `spec_comparison`).
pub fn emit_comparison(e: &TypedExp, ctx: &EmitCtx) -> (r: Option<String>)
    ensures
        opt_view(r) == spec_comparison(ctx@, *e),
    decreases e, 3int,
{
    match &e.kind {
        TypedExpKind::Binop { op, lhs, rhs } => {
            let op = *op;
            match emit_presence_test(e, ctx) {
                Some(r) => return r,
                None => {},
            }
            if !matches!(op, BinOp::Eq | BinOp::Ne | BinOp::Lt | BinOp::Gt | BinOp::Le | BinOp::Ge) {
                return None;
            }
            if matches!(lhs.ty, Type::Integer | Type::Float) {
                let target = if matches!(lhs.ty, Type::Float) || matches!(rhs.ty, Type::Float) {
                    Type::Float
                } else {
                    Type::Integer
                };
                let l = emit_numeric_operand(&**lhs, &target, ctx)?;
                let r = emit_numeric_operand(&**rhs, &target, ctx)?;
                Some(infix(l.as_str(), op, r.as_str()))
            } else if matches!(lhs.ty, Type::String) {
                let l = emit_owned_string(&**lhs, ctx)?;
                let r = emit_owned_string(&**rhs, ctx)?;
                Some(infix(l.as_str(), op, r.as_str()))
            } else {
                let l = emit_exp(&**lhs, ctx)?;
                let r = emit_exp(&**rhs, ctx)?;
                Some(infix(l.as_str(), op, r.as_str()))
            }
        },
        _ => None,
    }
}

/// `^` (see `spec_pow`).
pub fn emit_pow(e: &TypedExp, ctx: &EmitCtx) -> (r: Option<String>)
    ensures
        opt_view(r) == spec_pow(ctx@, *e),
    decreases e, 4int,
{
    match &e.kind {
        TypedExpKind::Binop { lhs, rhs, .. } => {
            let l = emit_exp(&**lhs, ctx)?;
            let r = emit_exp(&**rhs, ctx)?;
            Some(cat5("(", l.as_str(), " as f64).powf(", r.as_str(), " as f64)"))
        },
        _ => None,
    }
}

/// A unary operator without the outer parentheses (see `spec_unop`).
pub fn emit_unop(e: &TypedExp, ctx: &EmitCtx) -> (r: Option<String>)
    ensures
        opt_view(r) == spec_unop(ctx@, *e),
    decreases e, 4int,
{
    match &e.kind {
        TypedExpKind::Unop { op, exp: operand } => match op {
            UnOp::Neg => {
                let s = emit_exp(&**operand, ctx)?;
                Some(cat("-", s.as_str()))
            },
            UnOp::Not | UnOp::BNot => {
                let s = emit_exp(&**operand, ctx)?;
                Some(cat("!", s.as_str()))
            },
            UnOp::Len => match &operand.ty {
                Type::Array { .. } => {
                    let b = borrow_composite(&**operand, ctx)?;
                    Some(cat3("titan_runtime::array_len(", b.as_str(), ")"))
                },
                Type::String => {
                    let o = emit_owned_string(&**operand, ctx)?;
                    Some(cat3("titan_runtime::string_len(&", o.as_str(), ")"))
                },
                _ => None,
            },
        },
        _ => None,
    }
}

/// Run-time function that takes a `value` down to `t`.
fn from_value_fn(t: &Type) -> (r: Option<&'static str>)
    ensures
        match r {
            Some(s) => spec_from_value_fn(t.model()) == Some(s@),
            None => spec_from_value_fn(t.model()) is None,
        },
{
    match t {
        Type::Boolean => Some("value_to_boolean"),
        Type::Integer => Some("value_to_integer"),
        Type::Float => Some("value_to_float"),
        Type::String => Some("value_to_string"),
        _ => None,
    }
}

/// Unpacks a `value` (see `spec_from_value`).
pub fn emit_from_value(alvo: &Type, e: &TypedExp, ctx: &EmitCtx) -> (r: Option<String>)
    ensures
        opt_view(r) == spec_from_value(ctx@, alvo.model(), *e),
    decreases e, 6int,
{
    let f = from_value_fn(alvo)?;
    let s = emit_exp(e, ctx)?;
    Some(cat5("titan_runtime::", f, "(&", s.as_str(), ")"))
}

/// `as` (see `spec_cast`).
pub fn emit_cast(e: &TypedExp, ctx: &EmitCtx) -> (r: Option<String>)
    ensures
        opt_view(r) == spec_cast(ctx@, *e),
    decreases e, 4int,
{
    match &e.kind {
        TypedExpKind::Cast { kind, exp: inner } => match kind {
            CastKind::IntToFloat => {
                let s = emit_exp(&**inner, ctx)?;
                Some(cat(s.as_str(), " as f64"))
            },
            CastKind::FloatToInt => {
                let s = emit_exp(&**inner, ctx)?;
                Some(cat(s.as_str(), " as i64"))
            },
            CastKind::ToValue => emit_to_value(&**inner, ctx),
            CastKind::FromValue => emit_from_value(&e.ty, &**inner, ctx),
        },
        _ => None,
    }
}

/// Packs `e` into a `value` (see `spec_to_value`).
pub fn emit_to_value(e: &TypedExp, ctx: &EmitCtx) -> (r: Option<String>)
    ensures
        opt_view(r) == spec_to_value(ctx@, *e),
    decreases e, 10int,
{
    match &e.ty {
        Type::Nil => Some(String::from_str("titan_runtime::Value::Nil")),
        Type::Boolean => {
            let s = emit_delimited_exp(e, ctx)?;
            Some(cat3("titan_runtime::Value::Boolean(", s.as_str(), ")"))
        },
        Type::Integer => {
            let s = emit_delimited_exp(e, ctx)?;
            Some(cat3("titan_runtime::Value::Integer(", s.as_str(), ")"))
        },
        Type::Float => {
            let s = emit_delimited_exp(e, ctx)?;
            Some(cat3("titan_runtime::Value::Float(", s.as_str(), ")"))
        },
        Type::String => {
            let s = emit_owned_string(e, ctx)?;
            Some(cat3("titan_runtime::Value::String(", s.as_str(), ")"))
        },
        Type::Array { elem } => {
            let x = emit_exp(e, ctx)?;
            let i = emit_to_value_of_var(&**elem, "titan_e")?;
            Some(cat5("titan_runtime::Value::Array(", x.as_str(), ".iter().map(|titan_e| ", i.as_str(), ").collect())"))
        },
        Type::Dict { keys, values } => {
            let x = emit_exp(e, ctx)?;
            let k = emit_to_value_of_var(&**keys, "titan_k")?;
            let v = emit_to_value_of_var(&**values, "titan_v")?;
            let mut s = cat5("titan_runtime::Value::Map(", x.as_str(), ".iter().map(|(titan_k, titan_v)| (", k.as_str(), ", ");
            s.append(v.as_str());
            s.append(")).collect())");
            Some(s)
        },
        Type::Record { .. } => {
            let b = borrow_composite(e, ctx)?;
            let v = emit_to_value_of_var(&e.ty, "titan_r")?;
            Some(cat5("{ let titan_r = ", b.as_str(), "; ", v.as_str(), " }"))
        },
        Type::Option { base } => {
            let b = borrow_composite(e, ctx)?;
            let i = emit_to_value_of_var(&**base, "titan_o")?;
            Some(cat5(
                "match ",
                b.as_str(),
                " { Some(titan_o) => titan_runtime::Value::Option(Box::new(",
                i.as_str(),
                ")), None => titan_runtime::Value::Nil }",
            ))
        },
        _ => None,
    }
}

/// A string the run-time borrows (see `spec_borrow_runtime_str`).
pub fn borrow_runtime_str(e: &TypedExp, ctx: &EmitCtx) -> (r: Option<String>)
    ensures
        opt_view(r) == spec_borrow_runtime_str(ctx@, *e),
    decreases e, 9int,
{
    if matches!(e.ty, Type::Integer | Type::Float) {
        let s = emit_exp(e, ctx)?;
        Some(cat3("&", s.as_str(), ".to_string()"))
    } else {
        let s = emit_owned_string(e, ctx)?;
        Some(cat("&", s.as_str()))
    }
}

/// `..` (see `spec_concat`).
pub fn emit_concat(e: &TypedExp, ctx: &EmitCtx) -> (r: Option<String>)
    ensures
        opt_view(r) == spec_concat(ctx@, *e),
    decreases e, 4int,
{
    match &e.kind {
        TypedExpKind::Concat(exps) => emit_concat_chain(exps, ctx),
        _ => None,
    }
}

/// A chain with no link is absent as soon as one of its prefixes is.
proof fn lemma_chain_prefix_none(c: EmitModel, s: Seq<TypedExp>, j: int)
    requires
        1 <= j <= s.len(),
        spec_concat_chain(c, s.subrange(0, j)) is None,
    ensures
        spec_concat_chain(c, s) is None,
    decreases s.len(),
{
    if j == s.len() {
        assert(s.subrange(0, j) =~= s);
    } else {
        assert(s.drop_last().subrange(0, j) =~= s.subrange(0, j));
        lemma_chain_prefix_none(c, s.drop_last(), j);
    }
}

fn emit_concat_chain(exps: &Vec<TypedExp>, ctx: &EmitCtx) -> (r: Option<String>)
    ensures
        opt_view(r) == spec_concat_chain(ctx@, exps@),
    decreases exps, 0int,
{
    if exps.len() == 0 {
        return None;
    }
    proof { assert(decreases_to!(exps => exps@[0])); }
    let first = borrow_runtime_str(&exps[0], ctx);
    proof {
        assert(exps@.subrange(0, 1) =~= seq![exps@[0]]);
    }
    let mut acc = match first {
        Some(a) => a,
        None => {
            proof { lemma_chain_prefix_none(ctx@, exps@, 1); }
            return None;
        },
    };
    let mut i: usize = 1;
    while i < exps.len()
        invariant
            1 <= i <= exps@.len(),
            spec_concat_chain(ctx@, exps@.subrange(0, i as int)) == Some(acc@),
        decreases exps@.len() - i,
    {
        proof {
            assert(decreases_to!(exps => exps@[i as int]));
            let s = exps@.subrange(0, i + 1);
            assert(s.drop_last() =~= exps@.subrange(0, i as int));
            assert(s.last() == exps@[i as int]);
        }
        let r = match borrow_runtime_str(&exps[i], ctx) {
            Some(r) => r,
            None => {
                proof { lemma_chain_prefix_none(ctx@, exps@, i + 1); }
                return None;
            },
        };
        let lhs = if i == 1 {
            acc
        } else {
            cat("&", acc.as_str())
        };
        acc = cat5("titan_runtime::concat(", lhs.as_str(), ", ", r.as_str(), ")");
        i += 1;
    }
    proof { assert(exps@.subrange(0, exps@.len() as int) =~= exps@); }
    Some(acc)
}

/// An argument of a call to a Titan function (see `spec_direct_arg`).
pub fn emit_direct_arg(a: &TypedExp, ctx: &EmitCtx) -> (r: Option<String>)
    ensures
        opt_view(r) == spec_direct_arg(ctx@, *a),
    decreases a, 10int,
{
    if matches!(a.ty, Type::String) {
        emit_owned_string(a, ctx)
    } else if is_composite(&a.ty) {
        emit_place_mut(a, ctx)
    } else {
        emit_slot_value(&a.ty, a, ctx)
    }
}

fn emit_direct_args(args: &Vec<TypedExp>, ctx: &EmitCtx) -> (r: Option<String>)
    ensures
        opt_view(r) == spec_direct_args(ctx@, args@),
    decreases args, 1int,
{
    let ghost items = spec_direct_arg_items(ctx@, args@);
    let mut out = String::new();
    let mut i: usize = 0;
    while i < args.len()
        invariant
            i <= args@.len(),
            items == spec_direct_arg_items(ctx@, args@),
            items.len() == args@.len(),
            join_items(items.subrange(0, i as int)) == Some(out@),
        decreases args@.len() - i,
    {
        proof { assert(decreases_to!(args => args@[i as int])); }
        let x = match emit_direct_arg(&args[i], ctx) {
            Some(x) => x,
            None => {
                proof { lemma_join_items_none(items, i as int); }
                return None;
            },
        };
        proof { lemma_join_items_push(items, i as int, out@, x@); }
        if i > 0 {
            out.append(", ");
        }
        out.append(x.as_str());
        i += 1;
    }
    proof { assert(items.subrange(0, items.len() as int) =~= items); }
    Some(out)
}

/// An argument against its declared parameter (see `spec_arg_by_param`).
pub fn emit_arg_by_param(a: &TypedExp, p: &Type, ctx: &EmitCtx) -> (r: Option<String>)
    ensures
        opt_view(r) == spec_arg_by_param(ctx@, *a, p.model()),
    decreases a, 10int,
{
    if matches!(p, Type::String) {
        borrow_runtime_str(a, ctx)
    } else if is_composite(p) {
        emit_place_mut(a, ctx)
    } else {
        emit_slot_value(p, a, ctx)
    }
}

/// The arguments rendered against the declared signature, position by
/// position, one text per argument that meets a parameter.
pub fn emit_args_by_param(args: &Vec<TypedExp>, params: &Vec<Type>, ctx: &EmitCtx) -> (r: Option<Vec<String>>)
    ensures
        match r {
            Some(v) => v@.len() == zip_len(args@.len() as int, params@.len() as int) && forall|i: int|
                0 <= i < v@.len() ==> Some(#[trigger] v@[i]@) == spec_arg_by_param_items(
                    ctx@,
                    args@,
                    models(params@),
                )[i],
            None => spec_args_by_param(ctx@, args@, models(params@)) is None,
        },
    decreases args, 1int,
{
    let ghost items = spec_arg_by_param_items(ctx@, args@, models(params@));
    let n: usize = if args.len() < params.len() { args.len() } else { params.len() };
    let mut out: Vec<String> = Vec::new();
    let mut i: usize = 0;
    while i < n
        invariant
            i <= n,
            n == zip_len(args@.len() as int, params@.len() as int),
            items == spec_arg_by_param_items(ctx@, args@, models(params@)),
            items.len() == n,
            out@.len() == i,
            forall|j: int| 0 <= j < i ==> Some(#[trigger] out@[j]@) == items[j],
        decreases n - i,
    {
        proof {
            assert(decreases_to!(args => args@[i as int]));
            assert(models(params@)[i as int] == params@[i as int].model());
        }
        let x = match emit_arg_by_param(&args[i], &params[i], ctx) {
            Some(x) => x,
            None => {
                proof { lemma_join_items_none(items, i as int); }
                return None;
            },
        };
        out.push(x);
        i += 1;
    }
    Some(out)
}

/// The texts joined by `", "`.
fn join_rendered(v: &Vec<String>) -> (s: String)
    ensures
        join_items(Seq::new(v@.len(), |i: int| Some(v@[i]@))) == Some(s@),
{
    let ghost items = Seq::new(v@.len(), |i: int| Some(v@[i]@));
    let mut out = String::new();
    let mut i: usize = 0;
    while i < v.len()
        invariant
            i <= v@.len(),
            items == Seq::new(v@.len(), |i: int| Some(v@[i]@)),
            join_items(items.subrange(0, i as int)) == Some(out@),
        decreases v@.len() - i,
    {
        proof { lemma_join_items_push(items, i as int, out@, v@[i as int]@); }
        if i > 0 {
            out.append(", ");
        }
        out.append(v[i].as_str());
        i += 1;
    }
    proof { assert(items.subrange(0, items.len() as int) =~= items); }
    out
}

/// The arguments against the signature, joined (see `spec_args_by_param`).
fn render_args_by_param(args: &Vec<TypedExp>, params: &Vec<Type>, ctx: &EmitCtx) -> (r: Option<String>)
    ensures
        opt_view(r) == spec_args_by_param(ctx@, args@, models(params@)),
    decreases args, 2int,
{
    let v = emit_args_by_param(args, params, ctx)?;
    let s = join_rendered(&v);
    proof {
        let items = spec_arg_by_param_items(ctx@, args@, models(params@));
        assert(items =~= Seq::new(v@.len(), |i: int| Some(v@[i]@)));
    }
    Some(s)
}

/// A call (see `spec_call`).
pub fn emit_call(e: &TypedExp, ctx: &EmitCtx) -> (r: Option<String>)
    ensures
        opt_view(r) == spec_call(ctx@, *e),
    decreases e, 4int,
{
    match &e.kind {
        TypedExpKind::Call { callee, args } => match callee {
            Callee::Direct(n) => match lookup(n.as_str()) {
                Some(b) => {
                    let a = render_args_by_param(args, &b.params, ctx)?;
                    let mut s = cat3(b.rust_path, "(", a.as_str());
                    s.append(")");
                    Some(s)
                },
                None => {
                    let a = emit_direct_args(args, ctx)?;
                    let mut s = cat3("titan_", n.as_str(), "(");
                    s.append(a.as_str());
                    s.append(")");
                    Some(s)
                },
            },
            Callee::Foreign(_) => emit_foreign_call(e, ctx),
            Callee::Module { module, name } => {
                let cap = lookup_module(module.as_str())?;
                let f = cap.find_function(name.as_str())?;
                let a = render_args_by_param(args, &f.params, ctx)?;
                let mut s = cat3(f.rust_path, "(", a.as_str());
                s.append(")");
                Some(s)
            },
            Callee::Method { recv, module, name } => {
                let cap = lookup_module(module.as_str())?;
                let rt = match &recv.ty {
                    Type::Opaque { name: rt, .. } => rt,
                    _ => {
                        return None;
                    },
                };
                let f = cap.find_method(rt.as_str(), name.as_str())?;
                let r = emit_place_mut(&**recv, ctx)?;
                let rendered = emit_args_by_param(args, &f.params, ctx)?;
                let a = join_rendered(&rendered);
                proof {
                    let items = spec_arg_by_param_items(ctx@, args@, models(f.params@));
                    assert(items =~= Seq::new(rendered@.len(), |i: int| Some(rendered@[i]@)));
                }
                let mut s = cat3(f.rust_path, "(", r.as_str());
                if rendered.len() > 0 {
                    s.append(", ");
                    s.append(a.as_str());
                }
                s.append(")");
                proof {
                    let fm = f.model();
                    let tail = if zip_len(args@.len() as int, fm.params.len() as int) == 0 {
                        Seq::<char>::empty()
                    } else {
                        ", "@ + a@
                    };
                    assert(s@ =~= fm.rust_path + "("@ + r@ + tail + ")"@);
                }
                Some(s)
            },
        },
        _ => None,
    }
}

/// A bindings list without a link is absent as soon as one of its prefixes
/// is.
proof fn lemma_ffi_bindings_prefix_none(c: EmitModel, s: Seq<TypedExp>, j: int)
    requires
        0 <= j <= s.len(),
        spec_ffi_bindings(c, s.subrange(0, j)) is None,
    ensures
        spec_ffi_bindings(c, s) is None,
    decreases s.len(),
{
    if j == s.len() {
        assert(s.subrange(0, j) =~= s);
    } else {
        assert(s.drop_last().subrange(0, j) =~= s.subrange(0, j));
        lemma_ffi_bindings_prefix_none(c, s.drop_last(), j);
    }
}

/// The arguments of a call to a foreign function (see `spec_ffi_args`).
fn emit_ffi_args(args: &Vec<TypedExp>, ctx: &EmitCtx) -> (r: Option<String>)
    ensures
        opt_view(r) == spec_ffi_args(ctx@, args@),
    decreases args, 1int,
{
    let ghost items = spec_ffi_arg_items(ctx@, args@);
    let mut out = String::new();
    let mut i: usize = 0;
    while i < args.len()
        invariant
            i <= args@.len(),
            items == spec_ffi_arg_items(ctx@, args@),
            items.len() == args@.len(),
            join_items(items.subrange(0, i as int)) == Some(out@),
        decreases args@.len() - i,
    {
        proof { assert(decreases_to!(args => args@[i as int])); }
        let x = if matches!(args[i].ty, Type::String) {
            cat3("__titan_ffi_", usize_to_string(i).as_str(), ".as_ptr()")
        } else {
            match emit_delimited_exp(&args[i], ctx) {
                Some(x) => x,
                None => {
                    proof { lemma_join_items_none(items, i as int); }
                    return None;
                },
            }
        };
        proof { lemma_join_items_push(items, i as int, out@, x@); }
        if i > 0 {
            out.append(", ");
        }
        out.append(x.as_str());
        i += 1;
    }
    proof { assert(items.subrange(0, items.len() as int) =~= items); }
    Some(out)
}

/// The `let` bindings of the C strings of a call to a foreign function
/// (see `spec_ffi_bindings`).
fn emit_ffi_bindings(args: &Vec<TypedExp>, ctx: &EmitCtx) -> (r: Option<String>)
    ensures
        opt_view(r) == spec_ffi_bindings(ctx@, args@),
    decreases args, 1int,
{
    let mut out = String::new();
    let mut i: usize = 0;
    while i < args.len()
        invariant
            i <= args@.len(),
            spec_ffi_bindings(ctx@, args@.subrange(0, i as int)) == Some(out@),
        decreases args@.len() - i,
    {
        proof {
            assert(decreases_to!(args => args@[i as int]));
            let s = args@.subrange(0, i + 1);
            assert(s.drop_last() =~= args@.subrange(0, i as int));
            assert(s.last() == args@[i as int]);
        }
        if matches!(args[i].ty, Type::String) {
            let o = match emit_owned_string(&args[i], ctx) {
                Some(o) => o,
                None => {
                    proof { lemma_ffi_bindings_prefix_none(ctx@, args@, i + 1); }
                    return None;
                },
            };
            let b = cat5("let __titan_ffi_", usize_to_string(i).as_str(), " = titan_runtime::ffi_cstring(&", o.as_str(), ");");
            if out.as_str().is_empty() {
                out = b;
            } else {
                out.append(" ");
                out.append(b.as_str());
            }
        }
        i += 1;
    }
    proof { assert(args@.subrange(0, args@.len() as int) =~= args@); }
    Some(out)
}

/// A call to a `foreign function` (see `spec_foreign_call`).
pub fn emit_foreign_call(e: &TypedExp, ctx: &EmitCtx) -> (r: Option<String>)
    ensures
        opt_view(r) == spec_foreign_call(ctx@, *e),
    decreases e, 3int,
{
    match &e.kind {
        TypedExpKind::Call { callee: Callee::Foreign(n), args } => {
            let bindings = emit_ffi_bindings(args, ctx)?;
            let xs = emit_ffi_args(args, ctx)?;
            let chamada = if matches!(e.ty, Type::String) {
                let mut s = cat3("unsafe { titan_runtime::ffi_string(", n.as_str(), "(");
                s.append(xs.as_str());
                s.append(")) }");
                s
            } else {
                let mut s = cat3("unsafe { ", n.as_str(), "(");
                s.append(xs.as_str());
                s.append(") }");
                s
            };
            if bindings.as_str().is_empty() {
                Some(chamada)
            } else {
                Some(cat5("({ ", bindings.as_str(), " ", chamada.as_str(), " })"))
            }
        },
        _ => None,
    }
}

/// `v[i]` read (see `spec_index`).
pub fn emit_index(e: &TypedExp, ctx: &EmitCtx) -> (r: Option<String>)
    ensures
        opt_view(r) == spec_index(ctx@, *e),
    decreases e, 4int,
{
    match &e.kind {
        TypedExpKind::Index { base, index } => match &base.ty {
            Type::Array { .. } => {
                let b = borrow_composite(&**base, ctx)?;
                let i = emit_delimited_exp(&**index, ctx)?;
                Some(cat5("titan_runtime::array_get(", b.as_str(), ", ", i.as_str(), ")"))
            },
            Type::Dict { .. } => {
                let b = borrow_composite(&**base, ctx)?;
                let k = emit_slot_value(&index.ty, &**index, ctx)?;
                Some(cat5("titan_runtime::map_get(", b.as_str(), ", &", k.as_str(), ")"))
            },
            _ => None,
        },
        _ => None,
    }
}

pub fn emit_slots(es: &Vec<TypedExp>, ctx: &EmitCtx) -> (r: Option<String>)
    ensures
        opt_view(r) == spec_slots(ctx@, es@),
    decreases es, 1int,
{
    let ghost items = spec_slot_items(ctx@, es@);
    let mut out = String::new();
    let mut i: usize = 0;
    while i < es.len()
        invariant
            i <= es@.len(),
            items == spec_slot_items(ctx@, es@),
            items.len() == es@.len(),
            join_items(items.subrange(0, i as int)) == Some(out@),
        decreases es@.len() - i,
    {
        proof { assert(decreases_to!(es => es@[i as int])); }
        let x = match emit_slot_value(&es[i].ty, &es[i], ctx) {
            Some(x) => x,
            None => {
                proof { lemma_join_items_none(items, i as int); }
                return None;
            },
        };
        proof { lemma_join_items_push(items, i as int, out@, x@); }
        if i > 0 {
            out.append(", ");
        }
        out.append(x.as_str());
        i += 1;
    }
    proof { assert(items.subrange(0, items.len() as int) =~= items); }
    Some(out)
}

/// An array literal (see `spec_array_lit`).
pub fn emit_array_lit(e: &TypedExp, ctx: &EmitCtx) -> (r: Option<String>)
    ensures
        opt_view(r) == spec_array_lit(ctx@, *e),
    decreases e, 4int,
{
    match &e.kind {
        TypedExpKind::ArrayLit(elems) => {
            let s = emit_slots(elems, ctx)?;
            Some(cat3("vec![", s.as_str(), "]"))
        },
        _ => None,
    }
}

fn emit_record_fields(fields: &Vec<(String, TypedExp)>, ctx: &EmitCtx) -> (r: Option<String>)
    ensures
        opt_view(r) == spec_record_fields(ctx@, fields@),
    decreases fields, 2int,
{
    let ghost items = spec_record_field_items(ctx@, fields@);
    let mut out = String::new();
    let mut i: usize = 0;
    while i < fields.len()
        invariant
            i <= fields@.len(),
            items == spec_record_field_items(ctx@, fields@),
            items.len() == fields@.len(),
            join_items(items.subrange(0, i as int)) == Some(out@),
        decreases fields@.len() - i,
    {
        proof { assert(decreases_to!(fields => fields@[i as int].1)); }
        let v = match emit_slot_value(&fields[i].1.ty, &fields[i].1, ctx) {
            Some(v) => v,
            None => {
                proof { lemma_join_items_none(items, i as int); }
                return None;
            },
        };
        let x = cat3(fields[i].0.as_str(), ": ", v.as_str());
        proof { lemma_join_items_push(items, i as int, out@, x@); }
        if i > 0 {
            out.append(", ");
        }
        out.append(x.as_str());
        i += 1;
    }
    proof { assert(items.subrange(0, items.len() as int) =~= items); }
    Some(out)
}

/// A record literal (see `spec_record_lit`).
pub fn emit_record_lit(e: &TypedExp, ctx: &EmitCtx) -> (r: Option<String>)
    ensures
        opt_view(r) == spec_record_lit(ctx@, *e),
    decreases e, 4int,
{
    match &e.kind {
        TypedExpKind::RecordLit { ty_name, fields } => {
            let f = emit_record_fields(fields, ctx)?;
            let mut s = cat3(ty_name.as_str(), " { ", f.as_str());
            s.append(" }");
            Some(s)
        },
        _ => None,
    }
}

fn emit_map_entries(entries: &Vec<(TypedExp, TypedExp)>, ctx: &EmitCtx) -> (r: Option<String>)
    ensures
        opt_view(r) == spec_map_entries(ctx@, entries@),
    decreases entries, 2int,
{
    let ghost items = spec_map_entry_items(ctx@, entries@);
    let mut out = String::new();
    let mut i: usize = 0;
    while i < entries.len()
        invariant
            i <= entries@.len(),
            items == spec_map_entry_items(ctx@, entries@),
            items.len() == entries@.len(),
            join_items(items.subrange(0, i as int)) == Some(out@),
        decreases entries@.len() - i,
    {
        proof {
            assert(decreases_to!(entries => entries@[i as int].0));
            assert(decreases_to!(entries => entries@[i as int].1));
        }
        let k = match emit_slot_value(&entries[i].0.ty, &entries[i].0, ctx) {
            Some(k) => k,
            None => {
                proof { lemma_join_items_none(items, i as int); }
                return None;
            },
        };
        let v = match emit_slot_value(&entries[i].1.ty, &entries[i].1, ctx) {
            Some(v) => v,
            None => {
                proof { lemma_join_items_none(items, i as int); }
                return None;
            },
        };
        let x = cat5("(", k.as_str(), ", ", v.as_str(), ")");
        proof { lemma_join_items_push(items, i as int, out@, x@); }
        if i > 0 {
            out.append(", ");
        }
        out.append(x.as_str());
        i += 1;
    }
    proof { assert(items.subrange(0, items.len() as int) =~= items); }
    Some(out)
}

/// A map literal (see `spec_map_lit`).
pub fn emit_map_lit(e: &TypedExp, ctx: &EmitCtx) -> (r: Option<String>)
    ensures
        opt_view(r) == spec_map_lit(ctx@, *e),
    decreases e, 4int,
{
    match &e.kind {
        TypedExpKind::MapLit(entries) => {
            let s = emit_map_entries(entries, ctx)?;
            Some(cat3("std::collections::HashMap::from([", s.as_str(), "])"))
        },
        _ => None,
    }
}

} // verus!
