//! Table of the standard-library functions that a Titan program can call
//! without importing anything (today only `print`), each mapped to its
//! implementation in the run-time crate.  The checker registers these names
//! in the global scope, and the back end looks up their Rust path here.
use vstd::prelude::*;
use crate::text::str_eq;
use crate::types::{Type, TypeModel, models};

verus! {

/// A standard-library function of Titan.
pub struct Builtin {
    /// Name under which a Titan program calls it.
    pub titan_name: &'static str,
    /// Fully qualified Rust path that the back end emits.
    pub rust_path: &'static str,
    pub params: Vec<Type>,
    pub rettype: Type,
}

/// Mathematical value of a `Builtin`.
pub struct BuiltinModel {
    pub titan_name: Seq<char>,
    pub rust_path: Seq<char>,
    pub params: Seq<TypeModel>,
    pub rettype: TypeModel,
}

impl Builtin {
    pub open spec fn model(self) -> BuiltinModel {
        BuiltinModel {
            titan_name: self.titan_name@,
            rust_path: self.rust_path@,
            params: models(self.params@),
            rettype: self.rettype.model(),
        }
    }
}

/// The contents of the builtin table, in order.
pub open spec fn spec_builtins() -> Seq<BuiltinModel> {
    seq![
        BuiltinModel {
            titan_name: "print"@,
            rust_path: "titan_runtime::print"@,
            params: seq![TypeModel::String],
            rettype: TypeModel::Nil,
        },
    ]
}

/// The builtin table.
pub fn builtins() -> (r: Vec<Builtin>)
    ensures
        r@.len() == spec_builtins().len(),
        forall|i: int| 0 <= i < r@.len() ==> #[trigger] r@[i].model() == spec_builtins()[i],
{
    let mut params: Vec<Type> = Vec::new();
    params.push(Type::String);
    let mut r: Vec<Builtin> = Vec::new();
    r.push(Builtin {
        titan_name: "print",
        rust_path: "titan_runtime::print",
        params,
        rettype: Type::Nil,
    });
    proof {
        assert(models(r@[0].params@) =~= seq![TypeModel::String]);
    }
    r
}

/// `k` is the first entry of the builtin table named `name`.
pub open spec fn first_builtin_named(name: Seq<char>, k: int) -> bool {
    &&& 0 <= k < spec_builtins().len()
    &&& spec_builtins()[k].titan_name == name
    &&& forall|j: int| 0 <= j < k ==> spec_builtins()[j].titan_name != name
}

/// The builtin that `name` denotes: the first entry of the table so named.
pub open spec fn spec_lookup_builtin(name: Seq<char>) -> Option<BuiltinModel> {
    if exists|k: int| first_builtin_named(name, k) {
        Some(spec_builtins()[choose|k: int| first_builtin_named(name, k)])
    } else {
        None
    }
}

/// Looks a builtin up by the name that Titan source uses.
pub fn lookup(titan_name: &str) -> (r: Option<Builtin>)
    ensures
        match r {
            Some(b) => exists|k: int| first_builtin_named(titan_name@, k) && b.model() == spec_builtins()[k],
            None => forall|k: int|
                0 <= k < spec_builtins().len() ==> spec_builtins()[k].titan_name != titan_name@,
        },
        match r {
            Some(b) => spec_lookup_builtin(titan_name@) == Some(b.model()),
            None => spec_lookup_builtin(titan_name@) is None,
        },
{
    let table = builtins();
    let mut i: usize = 0;
    let mut table = table;
    let n = table.len();
    while i < n
        invariant
            n == table@.len(),
            n == spec_builtins().len(),
            i <= n,
            forall|j: int| 0 <= j < n ==> #[trigger] table@[j].model() == spec_builtins()[j],
            forall|j: int| 0 <= j < i ==> spec_builtins()[j].titan_name != titan_name@,
        decreases n - i,
    {
        if str_eq(table[i].titan_name, titan_name) {
            assert(table@[i as int].model() == spec_builtins()[i as int]);
            let b = table.remove(i);
            assert(first_builtin_named(titan_name@, i as int));
            proof {
                let c = choose|k: int| first_builtin_named(titan_name@, k);
                assert(c == i as int) by {
                    if c < i as int {
                        assert(spec_builtins()[c].titan_name != titan_name@);
                    } else if c > i as int {
                        assert(spec_builtins()[i as int].titan_name != titan_name@);
                    }
                }
            }
            return Some(b);
        }
        assert(table@[i as int].model() == spec_builtins()[i as int]);
        i += 1;
    }
    None
}

} // verus!
