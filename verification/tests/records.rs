use lib::ast::{Decl, Loc, TopLevel, Type as Ann};
use lib::checker::records::{find_recursive_record, record_deps, topological_order};
use lib::checker::state::Checker;

fn at() -> Loc {
    Loc { line: 1, col: 1 }
}

fn field(n: &str, ty: Option<Ann>) -> Decl {
    Decl { loc: at(), name: n.to_string(), ty, option: false }
}

fn named(n: &str) -> Option<Ann> {
    Some(Ann::TypeName { loc: at(), name: n.to_string() })
}

fn integer() -> Option<Ann> {
    Some(Ann::TypeInteger { loc: at() })
}

fn record(n: &str, fields: Vec<Decl>) -> TopLevel {
    TopLevel::TopLevelRecord { loc: at(), name: n.to_string(), fields }
}

#[test]
fn grafo_sem_ciclo_nao_tem_record_recursivo() {
    let deps = vec![vec![1], vec![2], vec![]];
    assert_eq!(find_recursive_record(&deps), None);
}

#[test]
fn laco_direto_e_recursivo() {
    let deps = vec![vec![], vec![1]];
    assert_eq!(find_recursive_record(&deps), Some(1));
}

#[test]
fn ciclo_indireto_e_achado_a_partir_do_primeiro_record() {
    let deps = vec![vec![1], vec![2], vec![0]];
    assert_eq!(find_recursive_record(&deps), Some(0));
}

#[test]
fn o_record_devolvido_esta_no_ciclo() {
    // 0 -> 1 -> 2 -> 1: record 0 only reaches the cycle; 1 lies on it.
    let deps = vec![vec![1], vec![2], vec![1]];
    assert_eq!(find_recursive_record(&deps), Some(1));
}

#[test]
fn ordem_topologica_poe_dependencias_antes() {
    let deps = vec![vec![1, 2], vec![2], vec![]];
    assert_eq!(topological_order(&deps), vec![2, 1, 0]);
}

#[test]
fn ordem_topologica_lista_cada_record_uma_vez() {
    let deps = vec![vec![], vec![0], vec![0, 1], vec![]];
    let order = topological_order(&deps);
    assert_eq!(order, vec![0, 1, 2, 3]);
}

#[test]
fn ordem_topologica_de_grafo_vazio() {
    let deps: Vec<Vec<usize>> = vec![];
    assert_eq!(topological_order(&deps), Vec::<usize>::new());
}

#[test]
fn dependencias_seguem_os_campos_que_nomeiam_records() {
    let program = vec![
        record("Linha", vec![field("a", named("Ponto")), field("b", named("Ponto")), field("n", integer())]),
        record("Ponto", vec![field("x", integer())]),
    ];
    let mut checker = Checker::new();
    let raw = checker.collect_record_names(&program);
    assert_eq!(raw.len(), 2);
    assert_eq!(raw[0], ("Linha".to_string(), 0));
    assert_eq!(raw[1], ("Ponto".to_string(), 1));
    let deps = record_deps(&program, &raw);
    assert_eq!(deps, vec![vec![1, 1], vec![]]);
}

#[test]
fn nomes_repetidos_reservados_e_campos_sem_tipo_ficam_de_fora() {
    let program = vec![
        record("A", vec![field("x", integer())]),
        record("A", vec![field("y", integer())]),
        record("String", vec![field("x", integer())]),
        record("B", vec![field("x", None)]),
        record("C", vec![field("x", integer()), field("x", integer())]),
        record("D", vec![]),
    ];
    let mut checker = Checker::new();
    let raw = checker.collect_record_names(&program);
    assert_eq!(raw, vec![("A".to_string(), 0), ("D".to_string(), 5)]);
    assert_eq!(checker.errors.len(), 4);
}
