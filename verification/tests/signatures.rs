use lib::ast::{Decl, Loc, Stat, TopLevel, Type as Ann};
use lib::checker::state::Checker;
use lib::checker::symtab::SymbolKind;
use lib::types::Type;

fn at() -> Loc {
    Loc { line: 3, col: 1 }
}

fn name_ty(n: &str) -> Ann {
    match n {
        "integer" => Ann::TypeInteger { loc: at() },
        "float" => Ann::TypeFloat { loc: at() },
        _ => Ann::TypeName { loc: at(), name: n.to_string() },
    }
}

fn array_of(t: Ann) -> Ann {
    Ann::TypeArray { loc: at(), subtype: Box::new(t) }
}

fn param(n: &str, ty: Option<Ann>) -> Decl {
    Decl { loc: at(), name: n.to_string(), ty, option: false }
}

fn func(n: &str, params: Vec<Decl>, rettypes: Vec<Ann>) -> TopLevel {
    TopLevel::TopLevelFunc {
        loc: at(),
        islocal: false,
        name: n.to_string(),
        params,
        rettypes,
        block: Stat::StatBlock { loc: at(), stats: vec![] },
    }
}

fn foreign(n: &str, params: Vec<Decl>, rettypes: Vec<Ann>) -> TopLevel {
    TopLevel::TopLevelForeignFunc { loc: at(), name: n.to_string(), params, rettypes }
}

#[test]
fn assinatura_resolvida_declara_a_funcao() {
    let mut checker = Checker::new();
    checker.collect_signature(&func("soma", vec![param("a", Some(name_ty("integer"))), param("b", Some(name_ty("float")))], vec![name_ty("integer")]));
    assert!(checker.errors.is_empty());
    let s = checker.st.find_symbol("soma").expect("soma declarada");
    assert!(matches!(s.kind, SymbolKind::Global));
    assert_eq!(s.def_loc, at());
    match &s.ty {
        Type::Function { params, rettypes } => {
            assert_eq!(params.len(), 2);
            assert!(matches!(params[0], Type::Integer));
            assert!(matches!(params[1], Type::Float));
            assert_eq!(rettypes.len(), 1);
            assert!(matches!(rettypes[0], Type::Integer));
        },
        _ => panic!("tipo de função esperado"),
    }
}

#[test]
fn parametro_sem_tipo_nao_declara_a_funcao() {
    let mut checker = Checker::new();
    checker.collect_signature(&func("f", vec![param("a", None)], vec![]));
    assert_eq!(checker.errors.len(), 1);
    assert!(checker.st.find_symbol("f").is_none());
}

#[test]
fn nome_ja_declarado_e_um_erro_so() {
    let mut checker = Checker::new();
    checker.collect_signature(&func("f", vec![], vec![]));
    checker.collect_signature(&func("f", vec![param("a", Some(name_ty("integer")))], vec![]));
    assert_eq!(checker.errors.len(), 1);
    match &checker.st.find_symbol("f").expect("f declarada").ty {
        Type::Function { params, .. } => assert!(params.is_empty()),
        _ => panic!("tipo de função esperado"),
    }
}

#[test]
fn funcao_estrangeira_escalar_e_registrada() {
    let mut checker = Checker::new();
    checker.collect_signature(&foreign("abs", vec![param("n", Some(name_ty("integer")))], vec![name_ty("integer")]));
    assert!(checker.errors.is_empty());
    assert!(checker.st.find_symbol("abs").is_some());
    assert_eq!(checker.foreigns, vec!["abs".to_string()]);
}

#[test]
fn funcao_estrangeira_com_array_nao_e_registrada() {
    let mut checker = Checker::new();
    checker.collect_signature(&foreign(
        "soma_tudo",
        vec![param("xs", Some(array_of(name_ty("integer")))), param("ys", Some(array_of(name_ty("float"))))],
        vec![name_ty("integer")],
    ));
    assert_eq!(checker.errors.len(), 2);
    assert!(checker.st.find_symbol("soma_tudo").is_none());
    assert!(checker.foreigns.is_empty());
}

#[test]
fn funcao_estrangeira_com_dois_retornos_nao_e_registrada() {
    let mut checker = Checker::new();
    checker.collect_signature(&foreign("par", vec![], vec![name_ty("integer"), name_ty("integer")]));
    assert_eq!(checker.errors.len(), 1);
    assert!(checker.st.find_symbol("par").is_none());
}

#[test]
fn checker_novo_declara_print() {
    let c = Checker::new();
    let s = c.st.find_symbol("print").expect("print declarado");
    assert!(matches!(s.kind, SymbolKind::Global));
    match &s.ty {
        Type::Function { params, rettypes } => {
            assert_eq!(params.len(), 1);
            assert!(matches!(params[0], Type::String));
            assert_eq!(rettypes.len(), 1);
            assert!(matches!(rettypes[0], Type::Nil));
        },
        _ => panic!("tipo de função esperado"),
    }
}

#[test]
fn importar_modulo_inexistente_e_um_erro_so() {
    let mut c = Checker::new();
    c.collect_signature(&TopLevel::TopLevelImport { loc: at(), localname: "m".to_string(), modname: "naoexiste".to_string() });
    assert_eq!(c.errors.len(), 1);
    assert!(c.modules.is_empty());
    assert!(c.st.find_symbol("m").is_none());
}

#[test]
fn importar_nome_ja_usado_e_um_erro_so() {
    let mut c = Checker::new();
    c.collect_signature(&TopLevel::TopLevelImport { loc: at(), localname: "print".to_string(), modname: "naoexiste".to_string() });
    assert_eq!(c.errors.len(), 1);
    assert_eq!(c.errors[0].message, "'print' já foi declarado antes.");
}

#[test]
fn programa_sem_main_reporta_no_inicio_do_arquivo() {
    let mut c = Checker::new();
    c.check_has_main(&vec![func("f", vec![], vec![])]);
    assert_eq!(c.errors.len(), 1);
    assert_eq!(c.errors[0].message, "função 'main' precisa ter a assinatura main(args: {string}): integer.");
    assert_eq!(c.errors[0].loc, Loc { line: 1, col: 1 });
}

#[test]
fn main_com_assinatura_errada_reporta_na_main() {
    let mut c = Checker::new();
    c.check_has_main(&vec![func("f", vec![], vec![]), func("main", vec![], vec![])]);
    assert_eq!(c.errors.len(), 1);
    assert_eq!(c.errors[0].loc, at());
}

#[test]
fn importar_modulo_da_tabela_registra_o_modulo() {
    let mut c = Checker::new();
    c.collect_signature(&TopLevel::TopLevelImport { loc: at(), localname: "d".to_string(), modname: "data".to_string() });
    assert!(c.errors.is_empty());
    assert_eq!(c.modules.len(), 1);
    assert_eq!(c.modules[0].0, "d");
    assert!(matches!(&c.st.find_symbol("d").expect("d declarado").kind, SymbolKind::Module { name } if name == "data"));
}
