//! The typing rules of the operators, as functions from operand types to
//! result types.  An operator applied to operands it does not accept has no
//! result (`None`), and the checker reports an error there.
use vstd::prelude::*;
use crate::checker::names::{spec_binop_from_source, spec_is_numeric, spec_numeric_result};
use crate::checker::typed::{BinOp, CastKind, UnOp};
use crate::text::str_eq;
use crate::types::{equals_spec, TypeModel};

verus! {

/// The unary operator that a source spelling denotes, if any.
pub open spec fn spec_unop_from_source(op: Seq<char>) -> Option<UnOp> {
    if op == "-"@ {
        Some(UnOp::Neg)
    } else if op == "not"@ {
        Some(UnOp::Not)
    } else if op == "#"@ {
        Some(UnOp::Len)
    } else if op == "~"@ {
        Some(UnOp::BNot)
    } else {
        None
    }
}

/// No prefix operator can be written two ways: two spellings that denote
/// the same operator are the same spelling.
pub proof fn law_unop_spelling_unique(a: Seq<char>, b: Seq<char>)
    requires
        spec_unop_from_source(a) is Some,
        spec_unop_from_source(a) == spec_unop_from_source(b),
    ensures
        a == b,
{
}

/// The prefix operators of Titan are written `-`, `not`, `#` and `~`; any
/// other text denotes none.
pub proof fn law_unop_spellings(s: Seq<char>)
    ensures
        spec_unop_from_source(s) is Some <==> (s == "-"@ || s == "not"@ || s == "#"@ || s == "~"@),
{
}

impl UnOp {
    /// The prefix operator written `op` (unary `~` is bitwise not).
    pub fn from_source(op: &str) -> (r: Option<UnOp>)
        ensures
            r == spec_unop_from_source(op@),
    {
        if str_eq(op, "-") {
            Some(UnOp::Neg)
        } else if str_eq(op, "not") {
            Some(UnOp::Not)
        } else if str_eq(op, "#") {
            Some(UnOp::Len)
        } else if str_eq(op, "~") {
            Some(UnOp::BNot)
        } else {
            None
        }
    }
}

/// `-` keeps a numeric type, `not` takes and gives `boolean`, `~` takes and
/// gives `integer` (no float coercion), `#` measures an array or a string.
pub open spec fn spec_unop_result(op: UnOp, t: TypeModel) -> Option<TypeModel> {
    match op {
        UnOp::Neg => if spec_is_numeric(t) { Some(t) } else { None },
        UnOp::Not => if t is Boolean { Some(TypeModel::Boolean) } else { None },
        UnOp::BNot => if t is Integer { Some(TypeModel::Integer) } else { None },
        UnOp::Len => if t is Array || t is String { Some(TypeModel::Integer) } else { None },
    }
}

/// What each prefix spelling does to the type of its operand: `-` keeps a
/// number, `not` negates a boolean, `~` complements an integer, and `#`
/// measures an array or a string, giving an integer; on any other operand
/// the operator is refused.
pub proof fn law_unop_spelling_typing(s: Seq<char>, t: TypeModel)
    requires
        spec_unop_from_source(s) is Some,
    ensures
        s == "-"@ ==> spec_unop_result(spec_unop_from_source(s)->0, t) == (if t is Integer
            || t is Float { Some(t) } else { None }),
        s == "not"@ ==> spec_unop_result(spec_unop_from_source(s)->0, t) == (if t is Boolean {
            Some(TypeModel::Boolean)
        } else {
            None
        }),
        s == "~"@ ==> spec_unop_result(spec_unop_from_source(s)->0, t) == (if t is Integer {
            Some(TypeModel::Integer)
        } else {
            None
        }),
        s == "#"@ ==> spec_unop_result(spec_unop_from_source(s)->0, t) == (if t is Array
            || t is String { Some(TypeModel::Integer) } else { None }),
{
    reveal_strlit("-");
    reveal_strlit("not");
    reveal_strlit("#");
    reveal_strlit("~");
    assert("-"@[0] == '-');
    assert("not"@[0] == 'n');
    assert("not"@[1] == 'o');
    assert("not"@[2] == 't');
    assert("#"@[0] == '#');
    assert("~"@[0] == '~');
}

/// What the binary spellings that Rust has no operator for do to the types
/// of their operands: `^` raises numbers to a `float`, `//` divides numbers
/// keeping an `integer` only between integers, and `<<` and `>>` shift an
/// integer by an integer; anything else is refused.
pub proof fn law_call_emitted_binop_typing(s: Seq<char>, l: TypeModel, r: TypeModel)
    requires
        spec_binop_from_source(s) is Some,
    ensures
        s == "^"@ ==> spec_binop_result(spec_binop_from_source(s)->0, l, r) == (if spec_is_numeric(l)
            && spec_is_numeric(r) { Some(TypeModel::Float) } else { None }),
        s == "//"@ ==> spec_binop_result(spec_binop_from_source(s)->0, l, r) == (if spec_is_numeric(l)
            && spec_is_numeric(r) {
            Some(if l is Integer && r is Integer { TypeModel::Integer } else { TypeModel::Float })
        } else {
            None
        }),
        s == "<<"@ || s == ">>"@ ==> spec_binop_result(spec_binop_from_source(s)->0, l, r) == (
        if l is Integer && r is Integer { Some(TypeModel::Integer) } else { None }),
{
    reveal_strlit("+");
    reveal_strlit("-");
    reveal_strlit("*");
    reveal_strlit("/");
    reveal_strlit("%");
    reveal_strlit("^");
    reveal_strlit("==");
    reveal_strlit("~=");
    reveal_strlit("<");
    reveal_strlit(">");
    reveal_strlit("<=");
    reveal_strlit(">=");
    reveal_strlit("and");
    reveal_strlit("or");
    reveal_strlit("//");
    reveal_strlit("&");
    reveal_strlit("|");
    reveal_strlit("~");
    reveal_strlit("<<");
    reveal_strlit(">>");
    assert("+"@[0] == '+');
    assert("-"@[0] == '-');
    assert("*"@[0] == '*');
    assert("/"@[0] == '/');
    assert("%"@[0] == '%');
    assert("^"@[0] == '^');
    assert("=="@[0] == '=');
    assert("=="@[1] == '=');
    assert("~="@[0] == '~');
    assert("~="@[1] == '=');
    assert("<"@[0] == '<');
    assert(">"@[0] == '>');
    assert("<="@[0] == '<');
    assert("<="@[1] == '=');
    assert(">="@[0] == '>');
    assert(">="@[1] == '=');
    assert("or"@[0] == 'o');
    assert("or"@[1] == 'r');
    assert("//"@[0] == '/');
    assert("//"@[1] == '/');
    assert("&"@[0] == '&');
    assert("|"@[0] == '|');
    assert("~"@[0] == '~');
    assert("<<"@[0] == '<');
    assert("<<"@[1] == '<');
    assert(">>"@[0] == '>');
    assert(">>"@[1] == '>');
    assert("/"@.len() == 1);
    assert("//"@.len() == 2);
    assert("<"@.len() == 1);
    assert("<<"@.len() == 2);
    assert(">"@.len() == 1);
    assert(">>"@.len() == 2);
}

/// `l == nil` or `nil == l` with `l` optional: the presence test.
pub open spec fn is_presence_test(l: TypeModel, r: TypeModel) -> bool {
    (l is Option && r is Nil) || (l is Nil && r is Option)
}

/// Arithmetic promotes to `float` unless both sides are `integer`; `/` and
/// `^` always give `float`; equality compares numbers with numbers,
/// strings with strings, booleans with booleans, or tests an optional
/// against `nil`; order compares numbers or strings; `and`/`or` are strictly
/// boolean; the bitwise operators take and give `integer`.
pub open spec fn spec_binop_result(op: BinOp, l: TypeModel, r: TypeModel) -> Option<TypeModel> {
    let numeric = spec_is_numeric(l) && spec_is_numeric(r);
    match op {
        BinOp::Add | BinOp::Sub | BinOp::Mul | BinOp::Mod | BinOp::IDiv => if numeric {
            Some(spec_numeric_result(l, r))
        } else {
            None
        },
        BinOp::Div | BinOp::Pow => if numeric {
            Some(TypeModel::Float)
        } else {
            None
        },
        BinOp::Eq | BinOp::Ne => if is_presence_test(l, r) || numeric || (equals_spec(l, r) && (
        l is String || l is Boolean)) {
            Some(TypeModel::Boolean)
        } else {
            None
        },
        BinOp::Lt | BinOp::Gt | BinOp::Le | BinOp::Ge => if numeric || (l is String && r is String) {
            Some(TypeModel::Boolean)
        } else {
            None
        },
        BinOp::And | BinOp::Or => if l is Boolean && r is Boolean {
            Some(TypeModel::Boolean)
        } else {
            None
        },
        BinOp::BAnd | BinOp::BOr | BinOp::BXor | BinOp::Shl | BinOp::Shr => if l is Integer
            && r is Integer {
            Some(TypeModel::Integer)
        } else {
            None
        },
    }
}

/// Whether a cast from `from` to `to` is accepted, and which conversion it
/// performs: `Some(None)` when the operand already has the target type (the
/// cast is the identity), `Some(Some(k))` for a conversion.  Only
/// `integer <-> float`, anything to `value`, and `value` down to a
/// primitive are conversions.
pub open spec fn spec_cast_result(from: TypeModel, to: TypeModel) -> Option<Option<CastKind>> {
    if equals_spec(from, to) {
        Some(None)
    } else if from is Integer && to is Float {
        Some(Some(CastKind::IntToFloat))
    } else if from is Float && to is Integer {
        Some(Some(CastKind::FloatToInt))
    } else if to is Value {
        Some(Some(CastKind::ToValue))
    } else if from is Value && (to is Boolean || to is Integer || to is Float || to is String) {
        Some(Some(CastKind::FromValue))
    } else {
        None
    }
}

/// Operands that `..` accepts (numbers are converted to text).
pub open spec fn spec_concat_operand(t: TypeModel) -> bool {
    t is String || t is Integer || t is Float || t is Value
}

/// A context type with every `?` layer removed: an init list in an optional
/// destination takes its shape from the base type.
pub open spec fn spec_strip_option(t: TypeModel) -> TypeModel
    decreases t,
{
    match t {
        TypeModel::Option { base } => spec_strip_option(*base),
        _ => t,
    }
}

} // verus!
