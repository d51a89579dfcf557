//! Table of capability modules (`import data`): for each module its Titan
//! name, the crate that implements it, the opaque types it exports and its
//! functions and methods.  The checker resolves `data.DataFrame` and
//! `data.f(...)` against this table, the back end takes Rust paths from it,
//! and the driver takes crate names and paths from it.
use vstd::prelude::*;
use crate::text::str_eq;
use crate::types::{Type, TypeModel, models};

verus! {

/// An opaque type exported by a module (`data.DataFrame`): programs carry
/// and pass it around, but do not look inside.
#[derive(Clone, Copy, Debug)]
pub struct OpaqueType {
    /// Name as Titan writes it (`DataFrame` in `data.DataFrame`).
    pub titan_name: &'static str,
    /// Fully qualified Rust path of the type.
    pub rust_path: &'static str,
}

/// A module function (`data.read_csv(...)`) or a method over one of the
/// module's opaque types (`df.soma(...)`).
#[derive(Debug)]
pub struct CapabilityFn {
    pub titan_name: &'static str,
    /// For a method, the opaque type it is called on; `None` for a module
    /// function.
    pub receiver: Option<&'static str>,
    pub rust_path: &'static str,
    pub params: Vec<Type>,
    pub rettype: Type,
}

/// A capability module.
#[derive(Debug)]
pub struct Capability {
    /// Name used by `import`.
    pub titan_name: &'static str,
    /// Name of the Rust crate implementing the module.
    pub crate_name: &'static str,
    /// Path of that crate relative to the workspace root.
    pub crate_path: &'static str,
    pub opaque_types: Vec<OpaqueType>,
    pub functions: Vec<CapabilityFn>,
}

/// Mathematical value of a `CapabilityFn`.
pub struct CapabilityFnModel {
    pub titan_name: Seq<char>,
    pub receiver: Option<Seq<char>>,
    pub rust_path: Seq<char>,
    pub params: Seq<TypeModel>,
    pub rettype: TypeModel,
}

/// Mathematical value of a `Capability`.
pub struct CapabilityModel {
    pub titan_name: Seq<char>,
    pub crate_name: Seq<char>,
    pub crate_path: Seq<char>,
    /// `(titan_name, rust_path)` of each opaque type.
    pub opaque_types: Seq<(Seq<char>, Seq<char>)>,
    pub functions: Seq<CapabilityFnModel>,
}

impl OpaqueType {
    pub open spec fn model(self) -> (Seq<char>, Seq<char>) {
        (self.titan_name@, self.rust_path@)
    }
}

impl CapabilityFn {
    pub open spec fn model(self) -> CapabilityFnModel {
        CapabilityFnModel {
            titan_name: self.titan_name@,
            receiver: match self.receiver {
                Some(r) => Some(r@),
                None => None,
            },
            rust_path: self.rust_path@,
            params: models(self.params@),
            rettype: self.rettype.model(),
        }
    }
}

impl Capability {
    pub open spec fn model(self) -> CapabilityModel {
        CapabilityModel {
            titan_name: self.titan_name@,
            crate_name: self.crate_name@,
            crate_path: self.crate_path@,
            opaque_types: Seq::new(
                self.opaque_types@.len(),
                |i: int| self.opaque_types@[i].model(),
            ),
            functions: Seq::new(self.functions@.len(), |i: int| self.functions@[i].model()),
        }
    }

    /// `f` is a module function (no receiver) named `name`.
    pub open spec fn is_function_named(f: CapabilityFn, name: Seq<char>) -> bool {
        f.receiver is None && f.titan_name@ == name
    }

    /// `f` is a method of the opaque type `recv` named `name`.
    pub open spec fn is_method_named(f: CapabilityFn, recv: Seq<char>, name: Seq<char>) -> bool {
        &&& f.receiver matches Some(r) && r@ == recv
        &&& f.titan_name@ == name
    }

    /// Looks an opaque type of this module up by its Titan name: the first
    /// one so named.
    pub fn find_opaque(&self, name: &str) -> (r: Option<&OpaqueType>)
        ensures
            match r {
                Some(t) => exists|k: int|
                    0 <= k < self.opaque_types@.len() && *t == self.opaque_types@[k]
                        && t.titan_name@ == name@ && forall|j: int|
                        0 <= j < k ==> self.opaque_types@[j].titan_name@ != name@,
                None => forall|k: int|
                    0 <= k < self.opaque_types@.len() ==> self.opaque_types@[k].titan_name@
                        != name@,
            },
    {
        let mut i: usize = 0;
        while i < self.opaque_types.len()
            invariant
                i <= self.opaque_types@.len(),
                forall|j: int| 0 <= j < i ==> self.opaque_types@[j].titan_name@ != name@,
            decreases self.opaque_types@.len() - i,
        {
            if str_eq(self.opaque_types[i].titan_name, name) {
                return Some(&self.opaque_types[i]);
            }
            i += 1;
        }
        None
    }

    /// Looks a module function (one without a receiver) up by name: the first
    /// one so named.
    pub fn find_function(&self, name: &str) -> (r: Option<&CapabilityFn>)
        ensures
            match r {
                Some(f) => exists|k: int|
                    0 <= k < self.functions@.len() && *f == self.functions@[k]
                        && Self::is_function_named(*f, name@) && forall|j: int|
                        0 <= j < k ==> !Self::is_function_named(self.functions@[j], name@),
                None => forall|k: int|
                    0 <= k < self.functions@.len() ==> !Self::is_function_named(
                        self.functions@[k],
                        name@,
                    ),
            },
            match r {
                Some(f) => spec_find_function(self.model(), name@) == Some(f.model()),
                None => spec_find_function(self.model(), name@) is None,
            },
    {
        let mut i: usize = 0;
        while i < self.functions.len()
            invariant
                i <= self.functions@.len(),
                forall|j: int|
                    0 <= j < i ==> !Self::is_function_named(self.functions@[j], name@),
            decreases self.functions@.len() - i,
        {
            let f = &self.functions[i];
            if f.receiver.is_none() && str_eq(f.titan_name, name) {
                proof {
                    let m = self.model();
                    assert forall|j: int| 0 <= j < i implies !(m.functions[j].receiver is None
                        && m.functions[j].titan_name == name@) by {
                        assert(m.functions[j] == self.functions@[j].model());
                    }
                    assert(m.functions[i as int] == self.functions@[i as int].model());
                    assert(first_function_named(m, name@, i as int));
                    let w = choose|j: int| first_function_named(m, name@, j);
                    assert(w == i as int) by {
                        if w < i as int {
                            assert(m.functions[w] == self.functions@[w].model());
                        }
                    }
                }
                return Some(f);
            }
            i += 1;
        }
        proof {
            let m = self.model();
            assert forall|j: int| !first_function_named(m, name@, j) by {
                if 0 <= j < m.functions.len() {
                    assert(m.functions[j] == self.functions@[j].model());
                }
            }
        }
        None
    }

    /// Looks a method of the opaque type `receiver_type` up by name: the
    /// first one so named.
    pub fn find_method(&self, receiver_type: &str, name: &str) -> (r: Option<&CapabilityFn>)
        ensures
            match r {
                Some(f) => exists|k: int|
                    0 <= k < self.functions@.len() && *f == self.functions@[k]
                        && Self::is_method_named(*f, receiver_type@, name@) && forall|j: int|
                        0 <= j < k ==> !Self::is_method_named(
                            self.functions@[j],
                            receiver_type@,
                            name@,
                        ),
                None => forall|k: int|
                    0 <= k < self.functions@.len() ==> !Self::is_method_named(
                        self.functions@[k],
                        receiver_type@,
                        name@,
                    ),
            },
            match r {
                Some(f) => spec_find_method(self.model(), receiver_type@, name@) == Some(f.model()),
                None => spec_find_method(self.model(), receiver_type@, name@) is None,
            },
    {
        let mut i: usize = 0;
        while i < self.functions.len()
            invariant
                i <= self.functions@.len(),
                forall|j: int|
                    0 <= j < i ==> !Self::is_method_named(
                        self.functions@[j],
                        receiver_type@,
                        name@,
                    ),
            decreases self.functions@.len() - i,
        {
            let f = &self.functions[i];
            let same_receiver = match f.receiver {
                Some(r) => str_eq(r, receiver_type),
                None => false,
            };
            if same_receiver && str_eq(f.titan_name, name) {
                proof {
                    let m = self.model();
                    assert forall|j: int| 0 <= j < i implies !(m.functions[j].receiver == Some(receiver_type@)
                        && m.functions[j].titan_name == name@) by {
                        assert(m.functions[j] == self.functions@[j].model());
                    }
                    assert(m.functions[i as int] == self.functions@[i as int].model());
                    assert(first_method_named(m, receiver_type@, name@, i as int));
                    let w = choose|j: int| first_method_named(m, receiver_type@, name@, j);
                    assert(w == i as int) by {
                        if w < i as int {
                            assert(m.functions[w] == self.functions@[w].model());
                        }
                    }
                }
                return Some(f);
            }
            i += 1;
        }
        proof {
            let m = self.model();
            assert forall|j: int| !first_method_named(m, receiver_type@, name@, j) by {
                if 0 <= j < m.functions.len() {
                    assert(m.functions[j] == self.functions@[j].model());
                }
            }
        }
        None
    }
}

/// The `data.DataFrame` parameter type of the aggregations.  Only `module`
/// and `name` take part in type equality, so `rust_path` is left empty.
pub open spec fn spec_df_param() -> TypeModel {
    TypeModel::Opaque { module: "data"@, name: "DataFrame"@, rust_path: Seq::empty() }
}

/// The placeholder result type of `read_csv`: the checker fills in the
/// module of the call and the opaque type it names.
pub open spec fn spec_opaque_placeholder() -> TypeModel {
    TypeModel::Opaque { module: Seq::empty(), name: Seq::empty(), rust_path: Seq::empty() }
}

pub open spec fn fn_model(
    titan_name: Seq<char>,
    receiver: Option<Seq<char>>,
    rust_path: Seq<char>,
    params: Seq<TypeModel>,
    rettype: TypeModel,
) -> CapabilityFnModel {
    CapabilityFnModel { titan_name, receiver, rust_path, params, rettype }
}

/// The four aggregations, with their Rust paths.
pub open spec fn spec_aggregations() -> Seq<(Seq<char>, Seq<char>)> {
    seq![
        ("soma"@, "titan_data::soma"@),
        ("media"@, "titan_data::media"@),
        ("minimo"@, "titan_data::minimo"@),
        ("maximo"@, "titan_data::maximo"@),
    ]
}

/// Entry `j` of the aggregation part of the `data` table: each aggregation
/// appears first as a module function taking the frame, then as a method.
pub open spec fn spec_aggregation_entry(j: int) -> CapabilityFnModel {
    let (name, path) = spec_aggregations()[j / 2];
    if j % 2 == 0 {
        fn_model(name, None, path, seq![spec_df_param(), TypeModel::String], TypeModel::Float)
    } else {
        fn_model(name, Some("DataFrame"@), path, seq![TypeModel::String], TypeModel::Float)
    }
}

/// `read_csv` and the inspection methods of the `data` module.
pub open spec fn spec_data_inspection() -> Seq<CapabilityFnModel> {
    seq![
        fn_model("read_csv"@, None, "titan_data::read_csv"@, seq![TypeModel::String], spec_opaque_placeholder()),
        fn_model("linhas"@, Some("DataFrame"@), "titan_data::linhas"@, seq![], TypeModel::Integer),
        fn_model("colunas"@, Some("DataFrame"@), "titan_data::colunas"@, seq![],
            TypeModel::Array { elem: Box::new(TypeModel::String) }),
        fn_model("coluna_integer"@, Some("DataFrame"@), "titan_data::coluna_integer"@,
            seq![TypeModel::String], TypeModel::Array { elem: Box::new(TypeModel::Integer) }),
        fn_model("coluna_float"@, Some("DataFrame"@), "titan_data::coluna_float"@,
            seq![TypeModel::String], TypeModel::Array { elem: Box::new(TypeModel::Float) }),
    ]
}

/// The functions and methods of the `data` module, in table order.
pub open spec fn spec_data_functions() -> Seq<CapabilityFnModel> {
    spec_data_inspection() + Seq::new(8, |j: int| spec_aggregation_entry(j))
}

/// The functions of the `texto` module, in table order.
pub open spec fn spec_texto_functions() -> Seq<CapabilityFnModel> {
    seq![
        fn_model("byte"@, None, "titan_texto::byte"@, seq![TypeModel::String, TypeModel::Integer], TypeModel::Integer),
        fn_model("sub"@, None, "titan_texto::sub"@,
            seq![TypeModel::String, TypeModel::Integer, TypeModel::Integer], TypeModel::String),
        fn_model("para_inteiro"@, None, "titan_texto::para_inteiro"@, seq![TypeModel::String], TypeModel::Integer),
        fn_model("de_inteiro"@, None, "titan_texto::de_inteiro"@, seq![TypeModel::Integer], TypeModel::String),
        fn_model("tamanho"@, None, "titan_texto::tamanho"@, seq![TypeModel::String], TypeModel::Integer),
    ]
}

/// The capability table, in order.
pub open spec fn spec_capabilities() -> Seq<CapabilityModel> {
    seq![
        CapabilityModel {
            titan_name: "data"@,
            crate_name: "titan-data"@,
            crate_path: "crates/titan-data"@,
            opaque_types: seq![("DataFrame"@, "titan_data::DataFrame"@)],
            functions: spec_data_functions(),
        },
        CapabilityModel {
            titan_name: "texto"@,
            crate_name: "titan-texto"@,
            crate_path: "crates/titan-texto"@,
            opaque_types: seq![],
            functions: spec_texto_functions(),
        },
    ]
}

/// The `data.DataFrame` parameter type (see `spec_df_param`).
fn df_param() -> (r: Type)
    ensures
        r.model() == spec_df_param(),
{
    Type::Opaque {
        module: String::from_str("data"),
        name: String::from_str("DataFrame"),
        rust_path: String::new(),
    }
}

fn types1(a: Type) -> (r: Vec<Type>)
    ensures
        models(r@) =~= seq![a.model()],
{
    let mut v: Vec<Type> = Vec::new();
    v.push(a);
    v
}

fn types2(a: Type, b: Type) -> (r: Vec<Type>)
    ensures
        models(r@) =~= seq![a.model(), b.model()],
{
    let mut v: Vec<Type> = Vec::new();
    v.push(a);
    v.push(b);
    v
}

fn types3(a: Type, b: Type, c: Type) -> (r: Vec<Type>)
    ensures
        models(r@) =~= seq![a.model(), b.model(), c.model()],
{
    let mut v: Vec<Type> = Vec::new();
    v.push(a);
    v.push(b);
    v.push(c);
    v
}

/// The whole surface of the `data` module: `read_csv` (a module function
/// returning the opaque frame), four inspection methods, and the four
/// aggregations both as module functions and as methods.
fn data_functions() -> (r: Vec<CapabilityFn>)
    ensures
        r@.len() == spec_data_functions().len(),
        forall|i: int| 0 <= i < r@.len() ==> #[trigger] r@[i].model() == spec_data_functions()[i],
{
    let agregacoes: [(&'static str, &'static str); 4] = [
        ("soma", "titan_data::soma"),
        ("media", "titan_data::media"),
        ("minimo", "titan_data::minimo"),
        ("maximo", "titan_data::maximo"),
    ];
    let mut functions: Vec<CapabilityFn> = Vec::new();
    functions.push(CapabilityFn {
        titan_name: "read_csv",
        receiver: None,
        rust_path: "titan_data::read_csv",
        params: types1(Type::String),
        rettype: Type::Opaque { module: String::new(), name: String::new(), rust_path: String::new() },
    });
    assert(models(functions@[0].params@) =~= spec_data_inspection()[0].params);
    assert(functions@[0].model() == spec_data_inspection()[0]);
    functions.push(CapabilityFn {
        titan_name: "linhas",
        receiver: Some("DataFrame"),
        rust_path: "titan_data::linhas",
        params: Vec::new(),
        rettype: Type::Integer,
    });
    assert(models(functions@[1].params@) =~= spec_data_inspection()[1].params);
    assert(functions@[1].model() == spec_data_inspection()[1]);
    functions.push(CapabilityFn {
        titan_name: "colunas",
        receiver: Some("DataFrame"),
        rust_path: "titan_data::colunas",
        params: Vec::new(),
        rettype: Type::Array { elem: Box::new(Type::String) },
    });
    assert(models(functions@[2].params@) =~= spec_data_inspection()[2].params);
    assert(functions@[2].model() == spec_data_inspection()[2]);
    functions.push(CapabilityFn {
        titan_name: "coluna_integer",
        receiver: Some("DataFrame"),
        rust_path: "titan_data::coluna_integer",
        params: types1(Type::String),
        rettype: Type::Array { elem: Box::new(Type::Integer) },
    });
    assert(models(functions@[3].params@) =~= spec_data_inspection()[3].params);
    assert(functions@[3].model() == spec_data_inspection()[3]);
    functions.push(CapabilityFn {
        titan_name: "coluna_float",
        receiver: Some("DataFrame"),
        rust_path: "titan_data::coluna_float",
        params: types1(Type::String),
        rettype: Type::Array { elem: Box::new(Type::Float) },
    });
    assert(models(functions@[4].params@) =~= spec_data_inspection()[4].params);
    assert(Type::Float.model() == TypeModel::Float);
    assert(functions@[4].model() == spec_data_inspection()[4]);
    proof {
        assert forall|i: int| 0 <= i < 5 implies spec_data_functions()[i] == spec_data_inspection()[i] by {}
    }
    assert(agregacoes@ == seq![
        ("soma", "titan_data::soma"),
        ("media", "titan_data::media"),
        ("minimo", "titan_data::minimo"),
        ("maximo", "titan_data::maximo"),
    ]);
    let mut k: usize = 0;
    while k < 4
        invariant
            k <= 4,
            agregacoes@ == seq![
                ("soma", "titan_data::soma"),
                ("media", "titan_data::media"),
                ("minimo", "titan_data::minimo"),
                ("maximo", "titan_data::maximo"),
            ],
            functions@.len() == 5 + 2 * k,
            forall|i: int| 0 <= i < functions@.len() ==> #[trigger] functions@[i].model()
                == spec_data_functions()[i],
        decreases 4 - k,
    {
        let (titan_name, rust_path) = agregacoes[k];
        assert(titan_name@ == spec_aggregations()[k as int].0);
        assert(rust_path@ == spec_aggregations()[k as int].1);
        functions.push(CapabilityFn {
            titan_name,
            receiver: None,
            rust_path,
            params: types2(df_param(), Type::String),
            rettype: Type::Float,
        });
        functions.push(CapabilityFn {
            titan_name,
            receiver: Some("DataFrame"),
            rust_path,
            params: types1(Type::String),
            rettype: Type::Float,
        });
        proof {
            let n = 5 + 2 * k;
            assert(spec_data_functions()[n as int] == spec_aggregation_entry(2 * k));
            assert(spec_data_functions()[n + 1] == spec_aggregation_entry(2 * k + 1));
            assert((2 * k) as int / 2 == k);
            assert((2 * k + 1) as int / 2 == k);
        }
        k += 1;
    }
    functions
}

/// The whole surface of the `texto` module: five module functions and no
/// opaque type.
fn texto_functions() -> (r: Vec<CapabilityFn>)
    ensures
        r@.len() == spec_texto_functions().len(),
        forall|i: int| 0 <= i < r@.len() ==> #[trigger] r@[i].model() == spec_texto_functions()[i],
{
    let mut functions: Vec<CapabilityFn> = Vec::new();
    functions.push(CapabilityFn {
        titan_name: "byte",
        receiver: None,
        rust_path: "titan_texto::byte",
        params: types2(Type::String, Type::Integer),
        rettype: Type::Integer,
    });
    functions.push(CapabilityFn {
        titan_name: "sub",
        receiver: None,
        rust_path: "titan_texto::sub",
        params: types3(Type::String, Type::Integer, Type::Integer),
        rettype: Type::String,
    });
    functions.push(CapabilityFn {
        titan_name: "para_inteiro",
        receiver: None,
        rust_path: "titan_texto::para_inteiro",
        params: types1(Type::String),
        rettype: Type::Integer,
    });
    functions.push(CapabilityFn {
        titan_name: "de_inteiro",
        receiver: None,
        rust_path: "titan_texto::de_inteiro",
        params: types1(Type::Integer),
        rettype: Type::String,
    });
    functions.push(CapabilityFn {
        titan_name: "tamanho",
        receiver: None,
        rust_path: "titan_texto::tamanho",
        params: types1(Type::String),
        rettype: Type::Integer,
    });
    functions
}

/// The capability table.
pub fn capabilities() -> (r: Vec<Capability>)
    ensures
        r@.len() == spec_capabilities().len(),
        forall|i: int| 0 <= i < r@.len() ==> #[trigger] r@[i].model() == spec_capabilities()[i],
{
    let mut data_opaque: Vec<OpaqueType> = Vec::new();
    data_opaque.push(OpaqueType { titan_name: "DataFrame", rust_path: "titan_data::DataFrame" });
    let mut r: Vec<Capability> = Vec::new();
    r.push(Capability {
        titan_name: "data",
        crate_name: "titan-data",
        crate_path: "crates/titan-data",
        opaque_types: data_opaque,
        functions: data_functions(),
    });
    r.push(Capability {
        titan_name: "texto",
        crate_name: "titan-texto",
        crate_path: "crates/titan-texto",
        opaque_types: Vec::new(),
        functions: texto_functions(),
    });
    proof {
        assert(r@[0].model().opaque_types =~= spec_capabilities()[0].opaque_types);
        assert(r@[0].model().functions =~= spec_capabilities()[0].functions);
        assert(r@[1].model().opaque_types =~= spec_capabilities()[1].opaque_types);
        assert(r@[1].model().functions =~= spec_capabilities()[1].functions);
    }
    r
}

/// A function of the table whose result is an opaque type belongs to a
/// module that exports one.
pub proof fn lemma_opaque_results_have_types(k: int, i: int)
    requires
        0 <= k < spec_capabilities().len(),
        0 <= i < spec_capabilities()[k].functions.len(),
        spec_capabilities()[k].functions[i].rettype is Opaque,
    ensures
        spec_capabilities()[k].opaque_types.len() > 0,
{
    if k == 1 {
        let fs = spec_texto_functions();
        assert(fs[0].rettype is Integer);
        assert(fs[1].rettype is String);
        assert(fs[2].rettype is Integer);
        assert(fs[3].rettype is String);
        assert(fs[4].rettype is Integer);
        assert(i == 0 || i == 1 || i == 2 || i == 3 || i == 4);
    }
}

/// The Rust name of a crate: its package name with each `-` read as `_`.
pub open spec fn crate_ident(package: Seq<char>) -> Seq<char> {
    package.map_values(|c: char| if c == '-' { '_' } else { c })
}

/// Where the item named `name` of the crate `package` lives in Rust.
pub open spec fn crate_item_path(package: Seq<char>, name: Seq<char>) -> Seq<char> {
    crate_ident(package) + "::"@ + name
}

/// Each aggregation lives in the `titan-data` crate under its own name.
proof fn lemma_aggregation_paths(q: int)
    requires
        0 <= q < 4,
    ensures
        spec_aggregations()[q].1 == crate_item_path("titan-data"@, spec_aggregations()[q].0),
{
    reveal_strlit("titan-data");
    reveal_strlit("::");
    reveal_strlit("soma");
    reveal_strlit("titan_data::soma");
    reveal_strlit("media");
    reveal_strlit("titan_data::media");
    reveal_strlit("minimo");
    reveal_strlit("titan_data::minimo");
    reveal_strlit("maximo");
    reveal_strlit("titan_data::maximo");
    let a = spec_aggregations();
    if q == 0 {
        assert(a[0].1 =~= crate_item_path("titan-data"@, a[0].0));
    } else if q == 1 {
        assert(a[1].1 =~= crate_item_path("titan-data"@, a[1].0));
    } else if q == 2 {
        assert(a[2].1 =~= crate_item_path("titan-data"@, a[2].0));
    } else {
        assert(a[3].1 =~= crate_item_path("titan-data"@, a[3].0));
    }
}

/// `read_csv` and the inspection methods live in the `titan-data` crate
/// under their own names.
proof fn lemma_inspection_paths(i: int)
    requires
        0 <= i < 5,
    ensures
        spec_data_inspection()[i].rust_path == crate_item_path(
            "titan-data"@,
            spec_data_inspection()[i].titan_name,
        ),
{
    reveal_strlit("titan-data");
    reveal_strlit("::");
    reveal_strlit("read_csv");
    reveal_strlit("titan_data::read_csv");
    reveal_strlit("linhas");
    reveal_strlit("titan_data::linhas");
    reveal_strlit("colunas");
    reveal_strlit("titan_data::colunas");
    reveal_strlit("coluna_integer");
    reveal_strlit("titan_data::coluna_integer");
    reveal_strlit("coluna_float");
    reveal_strlit("titan_data::coluna_float");
    let f = spec_data_inspection();
    if i == 0 {
        assert(f[0].rust_path =~= crate_item_path("titan-data"@, f[0].titan_name));
    } else if i == 1 {
        assert(f[1].rust_path =~= crate_item_path("titan-data"@, f[1].titan_name));
    } else if i == 2 {
        assert(f[2].rust_path =~= crate_item_path("titan-data"@, f[2].titan_name));
    } else if i == 3 {
        assert(f[3].rust_path =~= crate_item_path("titan-data"@, f[3].titan_name));
    } else {
        assert(f[4].rust_path =~= crate_item_path("titan-data"@, f[4].titan_name));
    }
}

/// The functions of `texto` live in the `titan-texto` crate under their
/// own names.
proof fn lemma_texto_paths(i: int)
    requires
        0 <= i < 5,
    ensures
        spec_texto_functions()[i].rust_path == crate_item_path(
            "titan-texto"@,
            spec_texto_functions()[i].titan_name,
        ),
{
    reveal_strlit("titan-texto");
    reveal_strlit("::");
    reveal_strlit("byte");
    reveal_strlit("titan_texto::byte");
    reveal_strlit("sub");
    reveal_strlit("titan_texto::sub");
    reveal_strlit("para_inteiro");
    reveal_strlit("titan_texto::para_inteiro");
    reveal_strlit("de_inteiro");
    reveal_strlit("titan_texto::de_inteiro");
    reveal_strlit("tamanho");
    reveal_strlit("titan_texto::tamanho");
    let f = spec_texto_functions();
    if i == 0 {
        assert(f[0].rust_path =~= crate_item_path("titan-texto"@, f[0].titan_name));
    } else if i == 1 {
        assert(f[1].rust_path =~= crate_item_path("titan-texto"@, f[1].titan_name));
    } else if i == 2 {
        assert(f[2].rust_path =~= crate_item_path("titan-texto"@, f[2].titan_name));
    } else if i == 3 {
        assert(f[3].rust_path =~= crate_item_path("titan-texto"@, f[3].titan_name));
    } else {
        assert(f[4].rust_path =~= crate_item_path("titan-texto"@, f[4].titan_name));
    }
}

/// Every function and method of a capability module lives in Rust at the
/// module's crate followed by its own Titan name: `texto.de_inteiro(..)`
/// calls `titan_texto::de_inteiro`, and `df.soma(..)` calls
/// `titan_data::soma`.
pub proof fn law_function_paths_follow_crate(k: int, i: int)
    requires
        0 <= k < spec_capabilities().len(),
        0 <= i < spec_capabilities()[k].functions.len(),
    ensures
        spec_capabilities()[k].functions[i].rust_path == crate_item_path(
            spec_capabilities()[k].crate_name,
            spec_capabilities()[k].functions[i].titan_name,
        ),
{
    if k == 0 {
        if i < 5 {
            lemma_inspection_paths(i);
            assert(spec_data_functions()[i] == spec_data_inspection()[i]);
        } else {
            let j = i - 5;
            assert(spec_data_functions()[i] == spec_aggregation_entry(j));
            lemma_aggregation_paths(j / 2);
        }
    } else {
        lemma_texto_paths(i);
    }
}

/// Every opaque type of a capability module lives in Rust at the module's
/// crate followed by its own Titan name (`data.DataFrame` is
/// `titan_data::DataFrame`).
pub proof fn law_opaque_paths_follow_crate(k: int, i: int)
    requires
        0 <= k < spec_capabilities().len(),
        0 <= i < spec_capabilities()[k].opaque_types.len(),
    ensures
        spec_capabilities()[k].opaque_types[i].1 == crate_item_path(
            spec_capabilities()[k].crate_name,
            spec_capabilities()[k].opaque_types[i].0,
        ),
{
    reveal_strlit("titan-data");
    reveal_strlit("::");
    reveal_strlit("DataFrame");
    reveal_strlit("titan_data::DataFrame");
    let t = spec_capabilities()[0].opaque_types;
    assert(t[0].1 =~= crate_item_path("titan-data"@, t[0].0));
}

/// Each capability crate lies in the workspace's `crates/` directory, under
/// its package name.
pub proof fn law_crate_paths(k: int)
    requires
        0 <= k < spec_capabilities().len(),
    ensures
        spec_capabilities()[k].crate_path == "crates/"@ + spec_capabilities()[k].crate_name,
{
    reveal_strlit("crates/");
    reveal_strlit("titan-data");
    reveal_strlit("crates/titan-data");
    reveal_strlit("titan-texto");
    reveal_strlit("crates/titan-texto");
    let c = spec_capabilities();
    assert(c[0].crate_path =~= "crates/"@ + c[0].crate_name);
    assert(c[1].crate_path =~= "crates/"@ + c[1].crate_name);
}

/// `k` is the first module of the table named `name`.
pub open spec fn first_module_named(name: Seq<char>, k: int) -> bool {
    &&& 0 <= k < spec_capabilities().len()
    &&& spec_capabilities()[k].titan_name == name
    &&& forall|j: int| 0 <= j < k ==> spec_capabilities()[j].titan_name != name
}

/// The module that `name` denotes: the first entry of the table so named.
pub open spec fn spec_lookup_module(name: Seq<char>) -> Option<CapabilityModel> {
    if exists|k: int| first_module_named(name, k) {
        Some(spec_capabilities()[choose|k: int| first_module_named(name, k)])
    } else {
        None
    }
}

/// `j` is the first function of `m` without a receiver named `name`.
pub open spec fn first_function_named(m: CapabilityModel, name: Seq<char>, j: int) -> bool {
    &&& 0 <= j < m.functions.len()
    &&& m.functions[j].receiver is None && m.functions[j].titan_name == name
    &&& forall|i: int| 0 <= i < j ==> !(m.functions[i].receiver is None && m.functions[i].titan_name == name)
}

/// The module function of `m` named `name`.
pub open spec fn spec_find_function(m: CapabilityModel, name: Seq<char>) -> Option<CapabilityFnModel> {
    if exists|j: int| first_function_named(m, name, j) {
        Some(m.functions[choose|j: int| first_function_named(m, name, j)])
    } else {
        None
    }
}

/// `j` is the first method of the opaque type `recv` in `m` named `name`.
pub open spec fn first_method_named(m: CapabilityModel, recv: Seq<char>, name: Seq<char>, j: int) -> bool {
    &&& 0 <= j < m.functions.len()
    &&& m.functions[j].receiver == Some(recv) && m.functions[j].titan_name == name
    &&& forall|i: int| 0 <= i < j ==> !(m.functions[i].receiver == Some(recv) && m.functions[i].titan_name == name)
}

/// The method `name` of the opaque type `recv` in `m`.
pub open spec fn spec_find_method(m: CapabilityModel, recv: Seq<char>, name: Seq<char>) -> Option<CapabilityFnModel> {
    if exists|j: int| first_method_named(m, recv, name, j) {
        Some(m.functions[choose|j: int| first_method_named(m, recv, name, j)])
    } else {
        None
    }
}

/// Looks a capability module up by the name used in `import`.
pub fn lookup_module(titan_name: &str) -> (r: Option<Capability>)
    ensures
        match r {
            Some(c) => exists|k: int|
                first_module_named(titan_name@, k) && c.model() == spec_capabilities()[k],
            None => forall|k: int|
                0 <= k < spec_capabilities().len() ==> spec_capabilities()[k].titan_name
                    != titan_name@,
        },
        match r {
            Some(c) => spec_lookup_module(titan_name@) == Some(c.model()),
            None => spec_lookup_module(titan_name@) is None,
        },
{
    let mut table = capabilities();
    let n = table.len();
    let mut i: usize = 0;
    while i < n
        invariant
            n == table@.len(),
            n == spec_capabilities().len(),
            i <= n,
            forall|j: int| 0 <= j < n ==> #[trigger] table@[j].model() == spec_capabilities()[j],
            forall|j: int| 0 <= j < i ==> spec_capabilities()[j].titan_name != titan_name@,
        decreases n - i,
    {
        assert(table@[i as int].model() == spec_capabilities()[i as int]);
        if str_eq(table[i].titan_name, titan_name) {
            let c = table.remove(i);
            assert(first_module_named(titan_name@, i as int));
            proof {
                let w = choose|k: int| first_module_named(titan_name@, k);
                assert(w == i as int) by {
                    if w < i as int {
                        assert(spec_capabilities()[w].titan_name != titan_name@);
                    } else if w > i as int {
                        assert(spec_capabilities()[i as int].titan_name != titan_name@);
                    }
                }
            }
            return Some(c);
        }
        i += 1;
    }
    None
}

/// The names of all modules, in table order (used to list the available
/// ones when an import names a module that does not exist).
pub fn available_module_names() -> (r: Vec<&'static str>)
    ensures
        r@.len() == spec_capabilities().len(),
        forall|i: int| 0 <= i < r@.len() ==> #[trigger] r@[i]@ == spec_capabilities()[i].titan_name,
{
    let table = capabilities();
    let mut names: Vec<&'static str> = Vec::new();
    let mut i: usize = 0;
    while i < table.len()
        invariant
            table@.len() == spec_capabilities().len(),
            forall|j: int| 0 <= j < table@.len() ==> #[trigger] table@[j].model() == spec_capabilities()[j],
            i <= table@.len(),
            names@.len() == i,
            forall|j: int| 0 <= j < i ==> #[trigger] names@[j]@ == spec_capabilities()[j].titan_name,
        decreases table@.len() - i,
    {
        assert(table@[i as int].model() == spec_capabilities()[i as int]);
        names.push(table[i].titan_name);
        i += 1;
    }
    names
}

} // verus!
