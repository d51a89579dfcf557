use lib::capabilities::{available_module_names, lookup_module, Capability, CapabilityFn, OpaqueType};
use lib::types::Type;

fn fake_capability() -> Capability {
    Capability {
        titan_name: "data",
        crate_name: "titan-data",
        crate_path: "crates/titan-data",
        opaque_types: vec![OpaqueType { titan_name: "DataFrame", rust_path: "titan_data::DataFrame" }],
        functions: vec![
            CapabilityFn {
                titan_name: "read_csv",
                receiver: None,
                rust_path: "titan_data::read_csv",
                params: vec![Type::String],
                rettype: Type::Opaque { module: String::new(), name: String::new(), rust_path: String::new() },
            },
            CapabilityFn {
                titan_name: "soma",
                receiver: Some("DataFrame"),
                rust_path: "titan_data::soma",
                params: vec![Type::String],
                rettype: Type::Float,
            },
        ],
    }
}

#[test]
fn encontra_tipo_opaco_por_nome() {
    let fake = fake_capability();
    assert!(fake.find_opaque("DataFrame").is_some());
    assert!(fake.find_opaque("Series").is_none());
}

#[test]
fn encontra_funcao_de_modulo_por_nome() {
    let fake = fake_capability();
    let f = fake.find_function("read_csv").expect("read_csv deveria existir");
    assert_eq!(f.rust_path, "titan_data::read_csv");
    assert!(fake.find_function("soma").is_none());
}

#[test]
fn encontra_metodo_por_tipo_receptor_e_nome() {
    let fake = fake_capability();
    let m = fake.find_method("DataFrame", "soma").expect("soma deveria existir para DataFrame");
    assert_eq!(m.rust_path, "titan_data::soma");
    assert!(fake.find_method("Series", "soma").is_none());
    assert!(fake.find_method("DataFrame", "read_csv").is_none());
}

#[test]
fn lookup_module_por_nome_titan() {
    assert!(lookup_module("data").is_some());
    assert!(lookup_module("inexistente").is_none());
}

#[test]
fn capability_inexistente_reporta_lista_de_disponiveis() {
    assert_eq!(available_module_names(), vec!["data", "texto"]);
}

#[test]
fn lookup_module_texto_por_nome_titan() {
    let texto = lookup_module("texto").expect("módulo texto deveria existir");
    assert!(texto.opaque_types.is_empty());
    assert!(texto.find_function("byte").is_some());
    assert!(texto.find_function("sub").is_some());
    assert!(texto.find_function("para_inteiro").is_some());
    assert!(texto.find_function("de_inteiro").is_some());
    assert!(texto.find_function("tamanho").is_some());
}

#[test]
fn membro_inexistente_no_modulo_fake_e_reportado() {
    let fake = fake_capability();
    assert!(fake.find_function("inexistente").is_none());
    assert!(fake.find_method("DataFrame", "inexistente").is_none());
}

#[test]
fn a_primeira_funcao_de_mesmo_nome_e_a_encontrada() {
    let mut fake = fake_capability();
    fake.functions.push(CapabilityFn {
        titan_name: "read_csv",
        receiver: None,
        rust_path: "outro::read_csv",
        params: vec![],
        rettype: Type::Nil,
    });
    assert_eq!(fake.find_function("read_csv").unwrap().rust_path, "titan_data::read_csv");
}

#[test]
fn data_exporta_dataframe_e_as_agregacoes_como_funcao_e_metodo() {
    let data = lookup_module("data").unwrap();
    assert_eq!(data.crate_name, "titan-data");
    assert_eq!(data.find_opaque("DataFrame").unwrap().rust_path, "titan_data::DataFrame");
    for agg in ["soma", "media", "minimo", "maximo"] {
        let f = data.find_function(agg).unwrap();
        assert_eq!(f.params.len(), 2);
        assert_eq!(f.rettype, Type::Float);
        let m = data.find_method("DataFrame", agg).unwrap();
        assert_eq!(m.params, vec![Type::String]);
        assert_eq!(m.rust_path, f.rust_path);
    }
    assert_eq!(data.find_method("DataFrame", "linhas").unwrap().rettype, Type::Integer);
}

#[test]
fn builtin_print_e_encontrado_pelo_nome() {
    assert!(lib::builtins::lookup("print").is_some());
    assert!(lib::builtins::lookup("inexistente").is_none());
}
