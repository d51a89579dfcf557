use lib::checker::names::{numeric_result, type_name_of};
use lib::types::Type;

fn exp_enum() -> Type {
    Type::Sum {
        name: "Exp".to_string(),
        variants: vec![("ExpNil".to_string(), vec![]), ("ExpInteger".to_string(), vec![Type::Integer])],
    }
}

#[test]
fn type_name_de_opaco_e_qualificado_por_modulo() {
    let df = Type::Opaque {
        module: "data".to_string(),
        name: "DataFrame".to_string(),
        rust_path: "titan_data::DataFrame".to_string(),
    };
    assert_eq!(type_name_of(&df), "data.DataFrame");
}

#[test]
fn type_name_de_enum_e_o_nome_nu() {
    assert_eq!(type_name_of(&exp_enum()), "Exp");
    assert_eq!(type_name_of(&Type::Array { elem: Box::new(exp_enum()) }), "{Exp}");
    assert_eq!(type_name_of(&Type::Option { base: Box::new(exp_enum()) }), "Exp?");
}

#[test]
fn type_name_de_map_e_de_primitivos() {
    let m = Type::Dict { keys: Box::new(Type::String), values: Box::new(Type::Array { elem: Box::new(Type::Float) }) };
    assert_eq!(type_name_of(&m), "map {string: {float}}");
    assert_eq!(type_name_of(&Type::Value), "value");
    assert_eq!(type_name_of(&Type::Nil), "nil");
    assert_eq!(type_name_of(&Type::Invalid), "<inválido>");
    assert_eq!(
        type_name_of(&Type::Function { params: vec![Type::Integer], rettypes: vec![] }),
        "function"
    );
}

#[test]
fn igualdade_de_tipos_e_nominal_para_records_e_estrutural_para_arrays() {
    let a = Type::Record { name: "P".to_string(), fields: vec![("x".to_string(), Type::Integer)] };
    let b = Type::Record { name: "P".to_string(), fields: vec![] };
    assert!(a.equals(&b));
    assert!(a.equals(&a));
    let xs = Type::Array { elem: Box::new(Type::Integer) };
    let ys = Type::Array { elem: Box::new(Type::Float) };
    assert!(!xs.equals(&ys));
    assert!(xs.compatible(&Type::Value));
    assert!(Type::Value.compatible(&ys));
    let opt = Type::Option { base: Box::new(Type::Integer) };
    assert!(!opt.compatible(&Type::Integer));
}

#[test]
fn numeric_result_so_e_integer_com_dois_integers() {
    assert_eq!(numeric_result(&Type::Integer, &Type::Integer), Type::Integer);
    assert_eq!(numeric_result(&Type::Integer, &Type::Float), Type::Float);
    assert_eq!(numeric_result(&Type::Float, &Type::Float), Type::Float);
}
