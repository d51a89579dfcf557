//! Semantic types of the checker.
//!
//! `Type` is what the checker works with at run time; `TypeModel` is its
//! mathematical counterpart (strings as `Seq<char>`, vectors as `Seq`), in
//! which the contracts are written.  `Type::model` relates the two.
use vstd::prelude::*;

verus! {

broadcast use vstd::std_specs::vec::axiom_vec_decreases_to_view;

/// A semantic type.
#[derive(Debug, PartialEq)]
pub enum Type {
    /// The "type" of a name that is not a value (an imported module).
    Invalid,
    Nil,
    Boolean,
    Integer,
    Float,
    String,
    /// The top of gradual typing.
    Value,
    Array { elem: Box<Type> },
    Dict { keys: Box<Type>, values: Box<Type> },
    Function { params: Vec<Type>, rettypes: Vec<Type> },
    Record { name: String, fields: Vec<(String, Type)> },
    /// An `enum` declaration.
    Sum { name: String, variants: Vec<(String, Vec<Type>)> },
    /// `T?`
    Option { base: Box<Type> },
    /// An opaque type exported by a capability module.
    Opaque { module: String, name: String, rust_path: String },
}

/// The mathematical value of a `Type`.
#[verifier::ext_equal]
pub enum TypeModel {
    Invalid,
    Nil,
    Boolean,
    Integer,
    Float,
    String,
    Value,
    Array { elem: Box<TypeModel> },
    Dict { keys: Box<TypeModel>, values: Box<TypeModel> },
    Function { params: Seq<TypeModel>, rettypes: Seq<TypeModel> },
    Record { name: Seq<char>, fields: Seq<(Seq<char>, TypeModel)> },
    Sum { name: Seq<char>, variants: Seq<(Seq<char>, Seq<TypeModel>)> },
    Option { base: Box<TypeModel> },
    Opaque { module: Seq<char>, name: Seq<char>, rust_path: Seq<char> },
}

/// Models of a sequence of types.
pub open spec fn models(s: Seq<Type>) -> Seq<TypeModel>
    decreases s,
{
    Seq::new(s.len(), |i: int| if 0 <= i < s.len() { s[i].model() } else { TypeModel::Invalid })
}

/// Models of a sequence of named types.
pub open spec fn field_models(s: Seq<(String, Type)>) -> Seq<(Seq<char>, TypeModel)>
    decreases s,
{
    Seq::new(
        s.len(),
        |i: int|
            if 0 <= i < s.len() {
                (s[i].0@, s[i].1.model())
            } else {
                (Seq::empty(), TypeModel::Invalid)
            },
    )
}

/// Models of a sequence of enum variants.
pub open spec fn variant_models(s: Seq<(String, Vec<Type>)>) -> Seq<(Seq<char>, Seq<TypeModel>)>
    decreases s,
{
    Seq::new(
        s.len(),
        |i: int|
            if 0 <= i < s.len() {
                (s[i].0@, models(s[i].1@))
            } else {
                (Seq::empty(), Seq::empty())
            },
    )
}

impl Type {
    /// The mathematical value of this type.
    pub open spec fn model(self) -> TypeModel
        decreases self,
    {
        match self {
            Type::Invalid => TypeModel::Invalid,
            Type::Nil => TypeModel::Nil,
            Type::Boolean => TypeModel::Boolean,
            Type::Integer => TypeModel::Integer,
            Type::Float => TypeModel::Float,
            Type::String => TypeModel::String,
            Type::Value => TypeModel::Value,
            Type::Array { elem } => TypeModel::Array { elem: Box::new((*elem).model()) },
            Type::Dict { keys, values } => TypeModel::Dict {
                keys: Box::new((*keys).model()),
                values: Box::new((*values).model()),
            },
            Type::Function { params, rettypes } => TypeModel::Function {
                params: models(params@),
                rettypes: models(rettypes@),
            },
            Type::Record { name, fields } => TypeModel::Record {
                name: name@,
                fields: field_models(fields@),
            },
            Type::Sum { name, variants } => TypeModel::Sum {
                name: name@,
                variants: variant_models(variants@),
            },
            Type::Option { base } => TypeModel::Option { base: Box::new((*base).model()) },
            Type::Opaque { module, name, rust_path } => TypeModel::Opaque {
                module: module@,
                name: name@,
                rust_path: rust_path@,
            },
        }
    }
}

/// An owned copy of a sequence of types with the same models.
#[verifier::loop_isolation(false)]
pub fn copy_types(v: &Vec<Type>) -> (r: Vec<Type>)
    ensures
        models(r@) == models(v@),
    decreases v,
{
    let mut out: Vec<Type> = Vec::new();
    let mut i: usize = 0;
    while i < v.len()
        invariant
            i <= v.len(),
            out@.len() == i,
            forall|j: int| 0 <= j < i ==> #[trigger] out@[j].model() == v@[j].model(),
        decreases v.len() - i,
    {
        proof { assert(decreases_to!(v => v@[i as int])); }
        let c = v[i].copy();
        out.push(c);
        i += 1;
    }
    assert forall|j: int| 0 <= j < v@.len() implies #[trigger] models(out@)[j] == models(v@)[j] by {
        assert(out@[j].model() == v@[j].model());
    }
    assert(models(out@) =~= models(v@));
    out
}

/// An owned copy of a sequence of named types with the same models.
#[verifier::loop_isolation(false)]
pub fn copy_fields(v: &Vec<(String, Type)>) -> (r: Vec<(String, Type)>)
    ensures
        field_models(r@) == field_models(v@),
    decreases v,
{
    let mut out: Vec<(String, Type)> = Vec::new();
    let mut i: usize = 0;
    while i < v.len()
        invariant
            i <= v.len(),
            out@.len() == i,
            forall|j: int|
                0 <= j < i ==> #[trigger] out@[j].0@ == v@[j].0@ && out@[j].1.model()
                    == v@[j].1.model(),
        decreases v.len() - i,
    {
        proof { assert(decreases_to!(v => v@[i as int].1)); }
        let n = v[i].0.clone();
        let c = v[i].1.copy();
        out.push((n, c));
        i += 1;
    }
    assert(field_models(out@) =~= field_models(v@));
    out
}

/// An owned copy of a sequence of enum variants with the same models.
#[verifier::loop_isolation(false)]
pub fn copy_variants(v: &Vec<(String, Vec<Type>)>) -> (r: Vec<(String, Vec<Type>)>)
    ensures
        variant_models(r@) == variant_models(v@),
    decreases v,
{
    let mut out: Vec<(String, Vec<Type>)> = Vec::new();
    let mut i: usize = 0;
    while i < v.len()
        invariant
            i <= v.len(),
            out@.len() == i,
            forall|j: int|
                0 <= j < i ==> #[trigger] out@[j].0@ == v@[j].0@ && models(out@[j].1@)
                    == models(v@[j].1@),
        decreases v.len() - i,
    {
        proof { assert(decreases_to!(v => v@[i as int].1)); }
        let n = v[i].0.clone();
        let c = copy_types(&v[i].1);
        out.push((n, c));
        i += 1;
    }
    assert(variant_models(out@) =~= variant_models(v@));
    out
}

impl Type {
    /// An owned copy of this type, with the same model.
    pub fn copy(&self) -> (r: Type)
        ensures
            r.model() == self.model(),
        decreases self,
    {
        match self {
            Type::Invalid => Type::Invalid,
            Type::Nil => Type::Nil,
            Type::Boolean => Type::Boolean,
            Type::Integer => Type::Integer,
            Type::Float => Type::Float,
            Type::String => Type::String,
            Type::Value => Type::Value,
            Type::Array { elem } => Type::Array { elem: Box::new((**elem).copy()) },
            Type::Dict { keys, values } => Type::Dict {
                keys: Box::new((**keys).copy()),
                values: Box::new((**values).copy()),
            },
            Type::Function { params, rettypes } => Type::Function {
                params: copy_types(params),
                rettypes: copy_types(rettypes),
            },
            Type::Record { name, fields } => Type::Record {
                name: name.clone(),
                fields: copy_fields(fields),
            },
            Type::Sum { name, variants } => Type::Sum {
                name: name.clone(),
                variants: copy_variants(variants),
            },
            Type::Option { base } => Type::Option { base: Box::new((**base).copy()) },
            Type::Opaque { module, name, rust_path } => Type::Opaque {
                module: module.clone(),
                name: name.clone(),
                rust_path: rust_path.clone(),
            },
        }
    }
}

/// Type equality.  Records and enums are nominal (compared by name), opaque
/// types are identified by module and name; every other type is compared
/// structurally.
pub open spec fn equals_spec(a: TypeModel, b: TypeModel) -> bool
    decreases a,
{
    match a {
        TypeModel::Array { elem } => match b {
            TypeModel::Array { elem: e2 } => equals_spec(*elem, *e2),
            _ => false,
        },
        TypeModel::Dict { keys, values } => match b {
            TypeModel::Dict { keys: k2, values: v2 } => equals_spec(*keys, *k2) && equals_spec(
                *values,
                *v2,
            ),
            _ => false,
        },
        TypeModel::Function { params, rettypes } => match b {
            TypeModel::Function { params: p2, rettypes: r2 } => {
                &&& params.len() == p2.len()
                &&& rettypes.len() == r2.len()
                &&& forall|i: int| 0 <= i < params.len() ==> equals_spec(params[i], p2[i])
                &&& forall|i: int| 0 <= i < rettypes.len() ==> equals_spec(rettypes[i], r2[i])
            },
            _ => false,
        },
        TypeModel::Record { name, .. } => match b {
            TypeModel::Record { name: n2, .. } => name == n2,
            _ => false,
        },
        TypeModel::Sum { name, .. } => match b {
            TypeModel::Sum { name: n2, .. } => name == n2,
            _ => false,
        },
        TypeModel::Option { base } => match b {
            TypeModel::Option { base: b2 } => equals_spec(*base, *b2),
            _ => false,
        },
        TypeModel::Opaque { module, name, .. } => match b {
            TypeModel::Opaque { module: m2, name: n2, .. } => module == m2 && name == n2,
            _ => false,
        },
        _ => a == b,
    }
}

/// Every type equals itself.
pub proof fn lemma_equals_reflexive(a: TypeModel)
    ensures
        equals_spec(a, a),
    decreases a,
{
    match a {
        TypeModel::Array { elem } => lemma_equals_reflexive(*elem),
        TypeModel::Dict { keys, values } => {
            lemma_equals_reflexive(*keys);
            lemma_equals_reflexive(*values);
        },
        TypeModel::Function { params, rettypes } => {
            assert forall|i: int| 0 <= i < params.len() implies equals_spec(params[i], params[i]) by {
                lemma_equals_reflexive(params[i]);
            }
            assert forall|i: int| 0 <= i < rettypes.len() implies equals_spec(rettypes[i], rettypes[i]) by {
                lemma_equals_reflexive(rettypes[i]);
            }
        },
        TypeModel::Option { base } => lemma_equals_reflexive(*base),
        _ => {},
    }
}

/// Type equality is symmetric.
pub proof fn lemma_equals_symmetric(a: TypeModel, b: TypeModel)
    requires
        equals_spec(a, b),
    ensures
        equals_spec(b, a),
    decreases a,
{
    match a {
        TypeModel::Array { elem } => {
            lemma_equals_symmetric(*elem, *b->Array_elem);
        },
        TypeModel::Dict { keys, values } => {
            lemma_equals_symmetric(*keys, *b->Dict_keys);
            lemma_equals_symmetric(*values, *b->Dict_values);
        },
        TypeModel::Function { params, rettypes } => {
            let p2 = b->Function_params;
            let r2 = b->Function_rettypes;
            assert forall|i: int| 0 <= i < p2.len() implies equals_spec(p2[i], params[i]) by {
                lemma_equals_symmetric(params[i], p2[i]);
            }
            assert forall|i: int| 0 <= i < r2.len() implies equals_spec(r2[i], rettypes[i]) by {
                lemma_equals_symmetric(rettypes[i], r2[i]);
            }
        },
        TypeModel::Option { base } => {
            lemma_equals_symmetric(*base, *b->Option_base);
        },
        _ => {},
    }
}

/// Assignment compatibility: equal types, or either side is `value`
/// (gradual typing).  `T?` is invariant: no injection happens here.
pub open spec fn compatible_spec(expected: TypeModel, found: TypeModel) -> bool {
    ||| equals_spec(expected, found)
    ||| expected is Value
    ||| found is Value
}

/// Pointwise equality of two sequences of types.
#[verifier::loop_isolation(false)]
fn types_equal(a: &Vec<Type>, b: &Vec<Type>) -> (r: bool)
    ensures
        r == (models(a@).len() == models(b@).len() && forall|i: int|
            0 <= i < models(a@).len() ==> equals_spec(models(a@)[i], models(b@)[i])),
    decreases a,
{
    if a.len() != b.len() {
        return false;
    }
    let mut i: usize = 0;
    while i < a.len()
        invariant
            i <= a.len(),
            a.len() == b.len(),
            forall|j: int| 0 <= j < i ==> equals_spec(models(a@)[j], models(b@)[j]),
        decreases a.len() - i,
    {
        proof { assert(decreases_to!(a => a@[i as int])); }
        if !a[i].equals(&b[i]) {
            assert(!equals_spec(models(a@)[i as int], models(b@)[i as int]));
            return false;
        }
        i += 1;
    }
    true
}

impl Type {
    /// Type equality (see `equals_spec`).
    pub fn equals(&self, other: &Type) -> (r: bool)
        ensures
            r == equals_spec(self.model(), other.model()),
        decreases self,
    {
        match self {
            Type::Array { elem } => match other {
                Type::Array { elem: e2 } => (**elem).equals(&**e2),
                _ => false,
            },
            Type::Dict { keys, values } => match other {
                Type::Dict { keys: k2, values: v2 } => (**keys).equals(&**k2) && (**values).equals(
                    &**v2,
                ),
                _ => false,
            },
            Type::Function { params, rettypes } => match other {
                Type::Function { params: p2, rettypes: r2 } => types_equal(params, p2)
                    && types_equal(rettypes, r2),
                _ => false,
            },
            Type::Record { name, .. } => match other {
                Type::Record { name: n2, .. } => *name == *n2,
                _ => false,
            },
            Type::Sum { name, .. } => match other {
                Type::Sum { name: n2, .. } => *name == *n2,
                _ => false,
            },
            Type::Option { base } => match other {
                Type::Option { base: b2 } => (**base).equals(&**b2),
                _ => false,
            },
            Type::Opaque { module, name, .. } => match other {
                Type::Opaque { module: m2, name: n2, .. } => *module == *m2 && *name == *n2,
                _ => false,
            },
            Type::Invalid => matches!(other, Type::Invalid),
            Type::Nil => matches!(other, Type::Nil),
            Type::Boolean => matches!(other, Type::Boolean),
            Type::Integer => matches!(other, Type::Integer),
            Type::Float => matches!(other, Type::Float),
            Type::String => matches!(other, Type::String),
            Type::Value => matches!(other, Type::Value),
        }
    }

    /// Assignment compatibility (see `compatible_spec`).
    pub fn compatible(&self, found: &Type) -> (r: bool)
        ensures
            r == compatible_spec(self.model(), found.model()),
    {
        self.equals(found) || matches!(self, Type::Value) || matches!(found, Type::Value)
    }
}

} // verus!
