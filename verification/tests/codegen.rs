use lib::ast::{Args, Decl, Exp, Field, FieldName, Loc, Stat, Then, TopLevel, Type as Ann, Var};
use lib::checker::toplevel::check;
use lib::checker::typed::{TypedExp, TypedExpKind, TypedStat, TypedTopLevel};
use lib::codegen::exp::{emit_args_by_param, EmitCtx};
use lib::codegen::floats::float_literals;
use lib::codegen::names::rust_field_type_name;
use lib::codegen::program::generate;
use lib::types::Type;

fn at() -> Loc {
    Loc { line: 1, col: 1 }
}

fn intl(v: i64) -> Exp {
    Exp::ExpInteger { loc: at(), value: v }
}

fn flt(v: f64) -> Exp {
    Exp::ExpFloat { loc: at(), bits: v.to_bits() }
}

fn text(v: &str) -> Exp {
    Exp::ExpString { loc: at(), value: v.to_string() }
}

fn boolean(v: bool) -> Exp {
    Exp::ExpBool { loc: at(), value: v }
}

fn nil() -> Exp {
    Exp::ExpNil { loc: at() }
}

fn bin(lhs: Exp, op: &str, rhs: Exp) -> Exp {
    Exp::ExpBinop { loc: at(), lhs: Box::new(lhs), op: op.to_string(), rhs: Box::new(rhs) }
}

fn un(op: &str, e: Exp) -> Exp {
    Exp::ExpUnop { loc: at(), op: op.to_string(), exp: Box::new(e) }
}

fn concat(exps: Vec<Exp>) -> Exp {
    Exp::ExpConcat { loc: at(), exps }
}

fn var_name(n: &str) -> Var {
    Var::VarName { loc: at(), name: n.to_string() }
}

fn name(n: &str) -> Exp {
    Exp::ExpVar { loc: at(), var: Box::new(var_name(n)) }
}

fn index_var(base: Exp, i: Exp) -> Var {
    Var::VarBracket { loc: at(), exp1: Box::new(base), exp2: Box::new(i) }
}

fn index(base: Exp, i: Exp) -> Exp {
    Exp::ExpVar { loc: at(), var: Box::new(index_var(base, i)) }
}

fn field_var(base: Exp, n: &str) -> Var {
    Var::VarDot { loc: at(), exp: Box::new(base), name: n.to_string() }
}

fn field(base: Exp, n: &str) -> Exp {
    Exp::ExpVar { loc: at(), var: Box::new(field_var(base, n)) }
}

fn list(exps: Vec<Exp>) -> Exp {
    Exp::ExpInitList {
        loc: at(),
        fields: exps.into_iter().map(|e| Field { loc: at(), name: FieldName::Positional, exp: e }).collect(),
    }
}

fn map_of(pairs: Vec<(Exp, Exp)>) -> Exp {
    Exp::ExpInitList {
        loc: at(),
        fields: pairs
            .into_iter()
            .map(|(k, v)| Field { loc: at(), name: FieldName::Key(Box::new(k)), exp: v })
            .collect(),
    }
}

fn record_of(pairs: Vec<(&str, Exp)>) -> Exp {
    Exp::ExpInitList {
        loc: at(),
        fields: pairs
            .into_iter()
            .map(|(n, v)| Field { loc: at(), name: FieldName::Name(n.to_string()), exp: v })
            .collect(),
    }
}

fn call(f: &str, args: Vec<Exp>) -> Exp {
    Exp::ExpCall { loc: at(), exp: Box::new(name(f)), args: Args::ArgsFunc { loc: at(), args } }
}

fn t_int() -> Ann {
    Ann::TypeInteger { loc: at() }
}

fn t_float() -> Ann {
    Ann::TypeFloat { loc: at() }
}

fn t_bool() -> Ann {
    Ann::TypeBoolean { loc: at() }
}

fn t_string() -> Ann {
    Ann::TypeString { loc: at() }
}

fn t_nil() -> Ann {
    Ann::TypeNil { loc: at() }
}

fn t_array(t: Ann) -> Ann {
    Ann::TypeArray { loc: at(), subtype: Box::new(t) }
}

fn t_map(k: Ann, v: Ann) -> Ann {
    Ann::TypeMap { loc: at(), keystype: Box::new(k), valuestype: Box::new(v) }
}

fn t_option(t: Ann) -> Ann {
    Ann::TypeOption { loc: at(), basetype: Box::new(t) }
}

fn t_name(n: &str) -> Ann {
    Ann::TypeName { loc: at(), name: n.to_string() }
}

fn decl(n: &str, ty: Option<Ann>) -> Decl {
    Decl { loc: at(), name: n.to_string(), ty, option: false }
}

fn local(n: &str, ty: Ann, e: Exp) -> Stat {
    Stat::StatDecl { loc: at(), decls: vec![decl(n, Some(ty))], exps: vec![e] }
}

fn assign(v: Var, e: Exp) -> Stat {
    Stat::StatAssign { loc: at(), vars: vec![v], exps: vec![e] }
}

fn block(stats: Vec<Stat>) -> Stat {
    Stat::StatBlock { loc: at(), stats }
}

fn print(e: Exp) -> Stat {
    Stat::StatCall { loc: at(), callexp: call("print", vec![e]) }
}

fn call_stat(f: &str, args: Vec<Exp>) -> Stat {
    Stat::StatCall { loc: at(), callexp: call(f, args) }
}

fn ret(exps: Vec<Exp>) -> Stat {
    Stat::StatReturn { loc: at(), exps }
}

fn if_chain(branches: Vec<(Exp, Vec<Stat>)>, otherwise: Option<Vec<Stat>>) -> Stat {
    Stat::StatIf {
        loc: at(),
        thens: branches.into_iter().map(|(c, b)| Then { loc: at(), condition: c, block: block(b) }).collect(),
        elsestat: otherwise.map(|b| Box::new(block(b))),
    }
}

fn while_do(c: Exp, body: Vec<Stat>) -> Stat {
    Stat::StatWhile { loc: at(), condition: c, block: Box::new(block(body)) }
}

fn repeat_until(body: Vec<Stat>, c: Exp) -> Stat {
    Stat::StatRepeat { loc: at(), block: Box::new(block(body)), condition: c }
}

fn for_num(n: &str, start: Exp, finish: Exp, inc: Option<Exp>, body: Vec<Stat>) -> Stat {
    Stat::StatFor {
        loc: at(),
        decl: Box::new(decl(n, None)),
        start: Box::new(start),
        finish: Box::new(finish),
        inc: inc.map(Box::new),
        block: Box::new(block(body)),
    }
}

fn for_in(names: Vec<&str>, e: Exp, body: Vec<Stat>) -> Stat {
    Stat::StatForIn {
        loc: at(),
        decls: names.into_iter().map(|n| decl(n, None)).collect(),
        exp: e,
        block: Box::new(block(body)),
    }
}

fn func(n: &str, params: Vec<Decl>, rettypes: Vec<Ann>, body: Vec<Stat>) -> TopLevel {
    TopLevel::TopLevelFunc { loc: at(), islocal: false, name: n.to_string(), params, rettypes, block: block(body) }
}

fn local_func(n: &str, params: Vec<Decl>, rettypes: Vec<Ann>, body: Vec<Stat>) -> TopLevel {
    TopLevel::TopLevelFunc { loc: at(), islocal: true, name: n.to_string(), params, rettypes, block: block(body) }
}

fn record(n: &str, fields: Vec<(&str, Ann)>) -> TopLevel {
    TopLevel::TopLevelRecord {
        loc: at(),
        name: n.to_string(),
        fields: fields.into_iter().map(|(f, t)| decl(f, Some(t))).collect(),
    }
}

/// `function main(args: {string}): integer <corpo> end`
fn main_fn(body: Vec<Stat>) -> TopLevel {
    func("main", vec![decl("args", Some(t_array(t_string())))], vec![t_int()], body)
}

/// `main` with `return 0` at the end.
fn main_with(mut body: Vec<Stat>) -> TopLevel {
    body.push(ret(vec![intl(0)]));
    main_fn(body)
}

/// Text of a float literal that is born an `f64` (`1.0`, never `1`).
fn format_float_literal(v: f64) -> String {
    if v.is_finite() && v.fract() == 0.0 {
        format!("{v:.1}")
    } else {
        format!("{v}")
    }
}

fn checked(program: Vec<TopLevel>) -> Vec<TypedTopLevel> {
    match check(&program) {
        Ok(c) => c.program,
        Err(errs) => panic!(
            "erro de tipo inesperado: {}",
            errs.iter().map(|e| e.message.clone()).collect::<Vec<_>>().join("; ")
        ),
    }
}

fn float_table(typed: &Vec<TypedTopLevel>) -> Vec<(u64, String)> {
    float_literals(typed).into_iter().map(|b| (b, format_float_literal(f64::from_bits(b)))).collect()
}

fn gera(program: Vec<TopLevel>) -> String {
    let typed = checked(program);
    let floats = float_table(&typed);
    match generate(&typed, &floats) {
        Ok(s) => s,
        Err(e) => panic!("erro de geração de código inesperado: {}", e.0),
    }
}

#[test]
fn gera_hello_world() {
    let rust = gera(vec![main_with(vec![print(text("Olá, mundo!"))])]);
    assert!(rust.contains("pub fn titan_main(_args: &mut Vec<String>) -> i64 {"));
    assert!(rust.contains("titan_runtime::print(&\"Olá, mundo!\".to_string());"));
    assert!(rust.contains("return 0;"));
    assert!(rust.contains("fn main() {"));
    assert!(rust.contains("std::process::exit(titan_main(&mut args) as i32);"));
}

#[test]
fn hello_world_completo_tem_o_texto_exato() {
    let rust = gera(vec![main_with(vec![print(text("oi"))])]);
    assert_eq!(
        rust,
        "pub fn titan_main(_args: &mut Vec<String>) -> i64 {\n    \
         titan_runtime::print(&\"oi\".to_string());\n    return 0;\n}\n\n\
         fn main() {\n    let mut args: Vec<String> = std::env::args().skip(1).collect();\n    \
         std::process::exit(titan_main(&mut args) as i32);\n}\n"
    );
}

#[test]
fn concat_encadeia_par_a_par_e_coage_string_computada() {
    let rust = gera(vec![main_with(vec![
        local("a", t_string(), concat(vec![text("x"), text("y"), text("z")])),
        print(name("a")),
    ])]);
    assert!(rust.contains(
        "let a: String = titan_runtime::concat(&titan_runtime::concat(&\"x\".to_string(), &\"y\".to_string()), &\"z\".to_string());"
    ));
    assert!(rust.contains("titan_runtime::print(&a.clone());"));
}

#[test]
fn chamada_de_funcao_local_usa_mangling_e_sem_pub() {
    let rust = gera(vec![
        local_func("ajuda", vec![], vec![t_int()], vec![ret(vec![intl(1)])]),
        main_fn(vec![ret(vec![call("ajuda", vec![])])]),
    ]);
    assert!(rust.contains("fn titan_ajuda() -> i64 {"));
    assert!(!rust.contains("pub fn titan_ajuda"));
    assert!(rust.contains("return titan_ajuda();"));
}

#[test]
fn parametro_nao_usado_sai_com_underscore_e_usado_mantem_o_nome() {
    let rust = gera(vec![
        func("conta", vec![decl("a", Some(t_array(t_string())))], vec![t_int()], vec![ret(vec![intl(0)])]),
        main_fn(vec![ret(vec![call("conta", vec![name("args")])])]),
    ]);
    assert!(rust.contains("fn titan_conta(_a: &mut Vec<String>) -> i64 {"));
    assert!(rust.contains("fn titan_main(args: &mut Vec<String>) -> i64 {"));
    assert!(rust.contains("return titan_conta(args);"));
}

#[test]
fn if_elseif_else_emite_cascata_rust() {
    let rust = gera(vec![
        func(
            "classifica",
            vec![decl("n", Some(t_int()))],
            vec![t_int()],
            vec![if_chain(
                vec![
                    (bin(name("n"), "<", intl(0)), vec![ret(vec![un("-", intl(1))])]),
                    (bin(name("n"), "==", intl(0)), vec![ret(vec![intl(0)])]),
                ],
                Some(vec![ret(vec![intl(1)])]),
            )],
        ),
        main_fn(vec![ret(vec![call("classifica", vec![intl(0)])])]),
    ]);
    assert!(rust.contains("    if n < 0 {\n        return -1;\n    } else if n == 0 {"));
    assert!(rust.contains("    } else {\n        return 1;\n    }\n"));
}

#[test]
fn while_assign_e_let_mut_apenas_nas_reatribuidas() {
    let rust = gera(vec![main_with(vec![
        local("acc", t_int(), intl(1)),
        local("i", t_int(), intl(1)),
        local("limite", t_int(), intl(5)),
        while_do(
            bin(name("i"), "<=", name("limite")),
            vec![
                assign(var_name("acc"), bin(name("acc"), "*", name("i"))),
                assign(var_name("i"), bin(name("i"), "+", intl(1))),
            ],
        ),
        print(concat(vec![text("acc: "), name("acc")])),
    ])]);
    assert!(rust.contains("let mut acc: i64 = 1;"));
    assert!(rust.contains("let mut i: i64 = 1;"));
    assert!(rust.contains("let limite: i64 = 5;"));
    assert!(rust.contains("    while i <= limite {\n"));
    assert!(rust.contains("acc = acc * i;"));
    assert!(rust.contains("i = i + 1;"));
}

#[test]
fn precedencia_explicita_nos_parenteses_de_operando() {
    let rust = gera(vec![main_with(vec![
        local("a", t_int(), bin(intl(1), "+", bin(intl(2), "*", intl(3)))),
        local(
            "b",
            t_bool(),
            bin(bin(name("a"), "==", intl(7)), "and", bin(name("a"), "~=", intl(0))),
        ),
        local("c", t_int(), un("-", un("-", name("a")))),
        local("d", t_bool(), un("not", un("not", boolean(true)))),
        if_chain(vec![(bin(name("b"), "and", name("d")), vec![ret(vec![name("c")])])], None),
    ])]);
    assert!(rust.contains("let a: i64 = 1 + (2 * 3);"));
    assert!(rust.contains("let b: bool = (a == 7) && (a != 0);"));
    assert!(rust.contains("let c: i64 = -(-a);"));
    assert!(rust.contains("let d: bool = !(!true);"));
    assert!(rust.contains("if b && d {"));
}

#[test]
fn div_e_pow_promovem_para_float() {
    let rust = gera(vec![main_with(vec![
        local("d", t_float(), bin(intl(10), "/", intl(3))),
        local("p", t_float(), bin(intl(2), "^", intl(10))),
        local("m", t_float(), bin(intl(1), "+", flt(0.5))),
        print(concat(vec![text("d: "), name("d")])),
        print(concat(vec![text("p: "), name("p")])),
        print(concat(vec![text("m: "), name("m")])),
    ])]);
    assert!(rust.contains("let d: f64 = (10 as f64) / (3 as f64);"));
    assert!(rust.contains("let p: f64 = (2 as f64).powf(10 as f64);"));
    assert!(rust.contains("let m: f64 = (1 as f64) + 0.5;"));
}

#[test]
fn concat_com_numero_usa_to_string() {
    let rust = gera(vec![main_with(vec![
        print(concat(vec![text("i: "), intl(42)])),
        print(concat(vec![text("f: "), flt(1.5)])),
        print(concat(vec![text("exp: "), bin(intl(1), "+", intl(2))])),
    ])]);
    assert!(rust.contains("titan_runtime::concat(&\"i: \".to_string(), &42.to_string())"));
    assert!(rust.contains("titan_runtime::concat(&\"f: \".to_string(), &1.5.to_string())"));
    assert!(rust.contains("titan_runtime::concat(&\"exp: \".to_string(), &(1 + 2).to_string())"));
}

#[test]
fn slot_string_ganha_to_string_para_literal_e_variavel() {
    let rust = gera(vec![main_with(vec![
        local("a", t_string(), text("oi")),
        local("b", t_string(), name("a")),
        assign(var_name("b"), text("tchau")),
        print(name("a")),
        print(name("b")),
    ])]);
    assert!(rust.contains("let a: String = \"oi\".to_string();"));
    assert!(rust.contains("let mut b: String = a.clone();"));
    assert!(rust.contains("b = \"tchau\".to_string();"));
}

#[test]
fn comparacao_de_strings_usa_string_dos_dois_lados() {
    let rust = gera(vec![main_fn(vec![
        local("a", t_string(), text("abc")),
        local("menor", t_bool(), bin(name("a"), "<", text("abd"))),
        local("igual", t_bool(), bin(name("a"), "==", text("abc"))),
        if_chain(vec![(bin(name("menor"), "and", name("igual")), vec![ret(vec![intl(0)])])], None),
        ret(vec![intl(1)]),
    ])]);
    assert!(rust.contains("let menor: bool = a.clone() < \"abd\".to_string();"));
    assert!(rust.contains("let igual: bool = a.clone() == \"abc\".to_string();"));
}

#[test]
fn for_emite_loop_com_incremento_no_topo() {
    let rust = gera(vec![main_with(vec![for_num(
        "i",
        intl(1),
        intl(5),
        None,
        vec![print(concat(vec![text("x"), name("i")]))],
    )])]);
    assert!(rust.contains("let mut i: i64 = 1;"));
    assert!(rust.contains("let titan_for_finish: i64 = 5;"));
    assert!(rust.contains("let titan_for_inc: i64 = 1;"));
    assert!(rust.contains("let titan_for_asc: bool = titan_for_inc > 0 as i64;"));
    assert!(rust.contains("let mut titan_for_primeira: bool = true;"));
    assert!(rust.contains("loop {"));
    assert!(rust.contains("if titan_for_primeira {"));
    assert!(rust.contains("titan_for_primeira = false;"));
    assert!(rust.contains("i += titan_for_inc;"));
    assert!(rust.contains("if !((titan_for_asc && i <= titan_for_finish)"));
    assert!(rust.contains("|| (!titan_for_asc && i >= titan_for_finish)) {"));
    assert!(!rust.contains("while (titan_for_asc"));
    assert!(!rust.contains(".."));
    assert!(!rust.contains("step_by"));
}

#[test]
fn for_poe_o_incremento_antes_do_corpo_no_texto_emitido() {
    let rust = gera(vec![main_with(vec![for_num("i", intl(1), intl(5), None, vec![print(text("corpo"))])])]);
    let incremento = rust.find("i += titan_for_inc;").expect("incremento emitido");
    let corpo = rust.find("corpo").expect("corpo emitido");
    assert!(incremento < corpo, "incremento deve preceder o corpo:\n{rust}");
}

#[test]
fn for_float_usa_o_mesmo_template_com_f64() {
    let rust = gera(vec![main_with(vec![for_num(
        "x",
        flt(0.0),
        flt(1.0),
        Some(flt(0.25)),
        vec![print(text("passo"))],
    )])]);
    assert!(rust.contains("let mut x: f64 = 0.0;"));
    assert!(rust.contains("let titan_for_finish: f64 = 1.0;"));
    assert!(rust.contains("let titan_for_inc: f64 = 0.25;"));
    assert!(rust.contains("let titan_for_asc: bool = titan_for_inc > 0 as f64;"));
    assert!(rust.contains("let mut titan_for_primeira: bool = true;"));
    assert!(rust.contains("x += titan_for_inc;"));
    assert!(rust.contains("if !((titan_for_asc && x <= titan_for_finish)"));
}

#[test]
fn for_in_sobre_array_emite_for_nativo_do_rust() {
    let rust = gera(vec![main_with(vec![
        local("v", t_array(t_int()), list(vec![intl(1), intl(2)])),
        local("s", t_int(), intl(0)),
        for_in(vec!["x"], name("v"), vec![assign(var_name("s"), bin(name("s"), "+", name("x")))]),
    ])]);
    assert!(rust.contains("for titan_forin_x in v.iter() {"), "{rust}");
    assert!(rust.contains("let x: i64 = *titan_forin_x;"), "{rust}");
    assert!(!rust.contains("titan_for_inc"), "{rust}");
    assert!(!rust.contains("titan_for_primeira"), "{rust}");
    assert!(!rust.contains("iter_mut"), "{rust}");
}

#[test]
fn for_in_sobre_map_emite_par_e_clona_so_a_chave() {
    let rust = gera(vec![main_with(vec![
        local("m", t_map(t_string(), t_int()), map_of(vec![(text("a"), intl(1))])),
        local("s", t_int(), intl(0)),
        local("t", t_string(), text("")),
        for_in(
            vec!["k", "n"],
            name("m"),
            vec![assign(var_name("s"), bin(name("s"), "+", name("n"))), assign(var_name("t"), name("k"))],
        ),
    ])]);
    assert!(rust.contains("for (titan_forin_k, titan_forin_n) in m.iter() {"), "{rust}");
    assert!(rust.contains("let k: String = titan_forin_k.clone();"), "{rust}");
    assert!(rust.contains("let n: i64 = *titan_forin_n;"), "{rust}");
}

#[test]
fn nome_nao_lido_do_for_in_vira_underscore_no_padrao() {
    let rust = gera(vec![main_with(vec![
        local("m", t_map(t_string(), t_int()), map_of(vec![(text("a"), intl(1))])),
        local("s", t_int(), intl(0)),
        for_in(vec!["k", "n"], name("m"), vec![assign(var_name("s"), bin(name("s"), "+", name("n")))]),
    ])]);
    assert!(rust.contains("for (_, titan_forin_n) in m.iter() {"), "{rust}");
    assert!(!rust.contains("let k:"), "{rust}");
    assert!(!rust.contains("titan_forin_k"), "{rust}");
}

#[test]
fn elemento_composto_do_for_in_entra_clonado() {
    let rust = gera(vec![main_with(vec![
        local("matriz", t_array(t_array(t_int())), list(vec![list(vec![intl(1), intl(2)])])),
        local("s", t_int(), intl(0)),
        for_in(
            vec!["linha"],
            name("matriz"),
            vec![assign(var_name("s"), bin(name("s"), "+", index(name("linha"), intl(1))))],
        ),
    ])]);
    assert!(rust.contains("let linha: Vec<i64> = titan_forin_linha.clone();"), "{rust}");
}

#[test]
fn variavel_do_for_in_apenas_escrita_ainda_ganha_ligacao() {
    let rust = gera(vec![main_with(vec![
        local("v", t_array(t_int()), list(vec![intl(1), intl(2)])),
        for_in(vec!["x"], name("v"), vec![assign(var_name("x"), intl(5))]),
    ])]);
    assert!(rust.contains("for titan_forin_x in v.iter() {"), "{rust}");
    assert!(rust.contains("let mut x: i64 = *titan_forin_x;"), "{rust}");
    assert!(!rust.contains("for _ in v.iter()"), "{rust}");
}

#[test]
fn record_gera_struct_com_derive_clone_e_campos_pub() {
    let rust = gera(vec![
        record("Ponto", vec![("x", t_int()), ("y", t_int())]),
        main_fn(vec![
            local("p", t_name("Ponto"), record_of(vec![("x", intl(1)), ("y", intl(2))])),
            ret(vec![field(name("p"), "x")]),
        ]),
    ]);
    assert!(rust.contains("#[derive(Clone, Debug, PartialEq)]\npub struct Ponto {"));
    assert!(rust.contains("pub x: i64,"));
    assert!(rust.contains("pub y: i64,"));
    assert!(rust.contains("let p: Ponto = Ponto { x: 1, y: 2 };"));
}

#[test]
fn array_literal_indexacao_e_escrita_usam_runtime_checado() {
    let rust = gera(vec![main_with(vec![
        local("xs", t_array(t_int()), list(vec![intl(10), intl(20), intl(30)])),
        assign(index_var(name("xs"), intl(1)), intl(99)),
        print(concat(vec![text("x: "), index(name("xs"), intl(1))])),
        print(concat(vec![text("len: "), un("#", name("xs"))])),
    ])]);
    assert!(rust.contains("let mut xs: Vec<i64> = vec![10, 20, 30];"));
    assert!(rust.contains("let titan_idx = 1;"));
    assert!(rust.contains("let titan_val = 99;"));
    assert!(rust.contains("titan_runtime::array_set(&mut xs, titan_idx, titan_val);"));
    assert!(rust.contains("titan_runtime::array_get(&xs, 1)"));
    assert!(rust.contains("titan_runtime::array_len(&xs)"));
}

#[test]
fn map_literal_consulta_e_escrita_usam_runtime() {
    let rust = gera(vec![main_with(vec![
        local("m", t_map(t_string(), t_int()), map_of(vec![(text("a"), intl(1))])),
        assign(index_var(name("m"), text("b")), intl(2)),
        print(concat(vec![text("a: "), index(name("m"), text("a"))])),
    ])]);
    assert!(rust.contains(
        "let mut m: std::collections::HashMap<String, i64> = std::collections::HashMap::from([(\"a\".to_string(), 1)]);"
    ));
    assert!(rust.contains("let titan_key = \"b\".to_string();"));
    assert!(rust.contains("let titan_val = 2;"));
    assert!(rust.contains("titan_runtime::map_set(&mut m, titan_key, titan_val);"));
    assert!(rust.contains("titan_runtime::map_get(&m, &\"a\".to_string())"));
}

#[test]
fn parametro_composto_sai_por_mut_e_reusa_referencia_no_corpo() {
    let rust = gera(vec![
        func(
            "dobra_primeiro",
            vec![decl("xs", Some(t_array(t_int())))],
            vec![t_nil()],
            vec![assign(index_var(name("xs"), intl(1)), bin(index(name("xs"), intl(1)), "*", intl(2)))],
        ),
        main_fn(vec![
            local("v", t_array(t_int()), list(vec![intl(1), intl(2)])),
            call_stat("dobra_primeiro", vec![name("v")]),
            ret(vec![index(name("v"), intl(1))]),
        ]),
    ]);
    assert!(rust.contains("pub fn titan_dobra_primeiro(xs: &mut Vec<i64>)"));
    assert!(rust.contains("titan_runtime::array_set(xs, titan_idx, titan_val);"));
    assert!(rust.contains("titan_runtime::array_get(xs, 1)"));
    assert!(rust.contains("titan_dobra_primeiro(&mut v);"));
}

#[test]
fn escrita_em_campo_de_parametro_e_de_elemento_usa_o_lugar() {
    let rust = gera(vec![
        record("Ponto", vec![("x", t_int()), ("y", t_int())]),
        func(
            "zera",
            vec![decl("p", Some(t_name("Ponto")))],
            vec![t_nil()],
            vec![assign(field_var(name("p"), "x"), intl(0))],
        ),
        main_with(vec![
            local(
                "pontos",
                t_array(t_name("Ponto")),
                list(vec![record_of(vec![("x", intl(1)), ("y", intl(2))])]),
            ),
            assign(field_var(index(name("pontos"), intl(1)), "x"), intl(55)),
        ]),
    ]);
    assert!(rust.contains("    (p).x = 0;\n"), "{rust}");
    assert!(rust.contains("(&mut (*titan_runtime::array_get_mut(&mut pontos, 1))).x = 55;"), "{rust}");
}

#[test]
fn divisao_inteira_emite_idiv_do_runtime_e_floor_para_float() {
    let rust = gera(vec![main_with(vec![
        local("a", t_int(), bin(intl(7), "//", intl(2))),
        local("b", t_float(), bin(flt(7.0), "//", flt(2.0))),
    ])]);
    assert!(rust.contains("let a: i64 = titan_runtime::idiv(7, 2);"), "{rust}");
    assert!(rust.contains("let b: f64 = (7.0 / 2.0).floor();"), "{rust}");
}

#[test]
fn til_e_circunflexo_nao_se_confundem_na_emissao() {
    let rust = gera(vec![main_with(vec![
        local("xor", t_int(), bin(intl(5), "~", intl(3))),
        local("pot", t_float(), bin(flt(5.0), "^", flt(3.0))),
        local("nao", t_int(), un("~", intl(0))),
    ])]);
    assert!(rust.contains("let xor: i64 = 5 ^ 3;"), "{rust}");
    assert!(rust.contains("let pot: f64 = (5.0 as f64).powf(3.0 as f64);"), "{rust}");
    assert!(rust.contains("let nao: i64 = !0;"), "{rust}");
}

#[test]
fn precedencia_de_bitwise_sai_explicita_em_parenteses() {
    let rust = gera(vec![main_with(vec![
        local("a", t_int(), bin(intl(1), "|", bin(intl(2), "&", intl(3)))),
        local("b", t_int(), bin(intl(1), "<<", bin(intl(2), "+", intl(3)))),
    ])]);
    assert!(rust.contains("let a: i64 = 1 | (2 & 3);"), "{rust}");
    assert!(rust.contains("let b: i64 = titan_runtime::shl(1, 2 + 3);"), "{rust}");
}

#[test]
fn continue_emite_continue_do_rust_depois_do_incremento() {
    let rust = gera(vec![main_with(vec![for_num(
        "i",
        intl(1),
        intl(5),
        None,
        vec![
            if_chain(vec![(bin(name("i"), "==", intl(2)), vec![Stat::StatContinue { loc: at() }])], None),
            print(text("corpo")),
        ],
    )])]);
    assert!(rust.contains("continue;"), "{rust}");
    let incremento = rust.find("i += titan_for_inc;").expect("incremento emitido");
    let cont = rust.find("continue;").expect("continue emitido");
    assert!(incremento < cont, "incremento deve preceder o continue:\n{rust}");
}

#[test]
fn continue_em_while_emite_continue_sem_label() {
    let rust = gera(vec![main_with(vec![
        local("i", t_int(), intl(0)),
        while_do(
            bin(name("i"), "<", intl(5)),
            vec![assign(var_name("i"), bin(name("i"), "+", intl(1))), Stat::StatContinue { loc: at() }],
        ),
    ])]);
    assert!(rust.contains("continue;"), "{rust}");
    assert!(!rust.contains("'titan"), "sem label:\n{rust}");
}

#[test]
fn repeat_emite_loop_com_teste_no_fim() {
    let rust = gera(vec![main_with(vec![
        local("n", t_int(), intl(0)),
        repeat_until(vec![assign(var_name("n"), bin(name("n"), "+", intl(1)))], bin(name("n"), ">", intl(3))),
    ])]);
    assert!(rust.contains("loop {"), "{rust}");
    let corpo = rust.find("n = n + 1;").expect("corpo emitido");
    let teste = rust.find("if n > 3 {").expect("teste do until emitido");
    assert!(corpo < teste, "corpo deve preceder o teste:\n{rust}");
    assert!(rust.contains("break;"), "{rust}");
    assert!(!rust.contains("titan_for_primeira"), "{rust}");
}

#[test]
fn local_do_corpo_fica_visivel_para_o_teste_do_until() {
    let rust = gera(vec![main_with(vec![
        local("n", t_int(), intl(0)),
        repeat_until(
            vec![local("x", t_int(), name("n")), assign(var_name("n"), bin(name("n"), "+", intl(1)))],
            bin(name("x"), ">", intl(3)),
        ),
    ])]);
    let decl = rust.find("let x: i64 = n;").expect("local emitido");
    let teste = rust.find("if x > 3 {").expect("teste do until emitido");
    assert!(decl < teste, "declaração deve preceder o teste:\n{rust}");
    assert!(
        rust.contains("        let x: i64 = n;") && rust.contains("        if x > 3 {"),
        "corpo e teste em níveis distintos:\n{rust}"
    );
}

#[test]
fn dois_retornos_viram_tupla_na_assinatura_e_no_return() {
    let rust = gera(vec![
        func(
            "divmod",
            vec![decl("a", Some(t_int())), decl("b", Some(t_int()))],
            vec![t_int(), t_int()],
            vec![ret(vec![bin(name("a"), "//", name("b")), bin(name("a"), "%", name("b"))])],
        ),
        main_with(vec![]),
    ]);
    assert!(rust.contains("pub fn titan_divmod(a: i64, b: i64) -> (i64, i64) {"), "{rust}");
    assert!(rust.contains("return (titan_runtime::idiv(a, b), a % b);"), "{rust}");
}

#[test]
fn um_retorno_so_nao_vira_tupla_de_um() {
    let rust = gera(vec![
        func("dobro", vec![decl("a", Some(t_int()))], vec![t_int()], vec![ret(vec![bin(name("a"), "*", intl(2))])]),
        main_with(vec![]),
    ]);
    assert!(rust.contains("pub fn titan_dobro(a: i64) -> i64 {"), "{rust}");
    assert!(rust.contains("return a * 2;"), "{rust}");
    assert!(!rust.contains("(i64,)"), "{rust}");
}

#[test]
fn retorno_nil_continua_sem_seta_na_assinatura() {
    let rust = gera(vec![
        func(
            "nada",
            vec![decl("a", Some(t_int()))],
            vec![t_nil()],
            vec![print(concat(vec![text("x"), name("a")])), ret(vec![nil()])],
        ),
        main_with(vec![]),
    ]);
    assert!(rust.contains("pub fn titan_nada(a: i64) {"), "{rust}");
    assert!(!rust.contains("-> ()"), "{rust}");
    assert!(rust.contains("return ();"), "{rust}");
}

#[test]
fn composto_e_string_na_tupla_seguem_as_regras_de_slot() {
    let rust = gera(vec![
        func(
            "par",
            vec![],
            vec![t_array(t_int()), t_string()],
            vec![
                local("v", t_array(t_int()), list(vec![intl(1), intl(2)])),
                local("s", t_string(), text("a")),
                ret(vec![name("v"), name("s")]),
            ],
        ),
        main_with(vec![]),
    ]);
    assert!(rust.contains("pub fn titan_par() -> (Vec<i64>, String) {"), "{rust}");
    assert!(!rust.contains("&mut Vec<i64>)"), "{rust}");
    assert!(rust.contains("return (v.clone(), s.clone());"), "{rust}");
}

#[test]
fn parametro_composto_devolvido_na_tupla_vira_dono() {
    let rust = gera(vec![
        func(
            "eco",
            vec![decl("xs", Some(t_array(t_int())))],
            vec![t_array(t_int()), t_int()],
            vec![ret(vec![name("xs"), un("#", name("xs"))])],
        ),
        main_with(vec![]),
    ]);
    assert!(rust.contains("pub fn titan_eco(xs: &mut Vec<i64>) -> (Vec<i64>, i64) {"), "{rust}");
    assert!(rust.contains("return (xs.clone(), titan_runtime::array_len(xs));"), "{rust}");
}

#[test]
fn nil_dentro_da_tupla_vira_componente_unit() {
    let rust = gera(vec![
        func("f", vec![], vec![t_int(), t_nil()], vec![ret(vec![intl(1), nil()])]),
        main_with(vec![]),
    ]);
    assert!(rust.contains("pub fn titan_f() -> (i64, ()) {"), "{rust}");
    assert!(rust.contains("return (1, ());"), "{rust}");
}

fn divmod_fn() -> TopLevel {
    func(
        "divmod",
        vec![decl("a", Some(t_int())), decl("b", Some(t_int()))],
        vec![t_int(), t_int()],
        vec![ret(vec![bin(name("a"), "//", name("b")), bin(name("a"), "%", name("b"))])],
    )
}

#[test]
fn ajuste_e_extra_indexam_a_tupla_do_retorno() {
    let program = vec![
        divmod_fn(),
        main_fn(vec![
            local("q", t_int(), call("divmod", vec![intl(7), intl(2)])),
            ret(vec![name("q")]),
        ]),
    ];
    let mut typed = checked(program);
    let rust = generate(&typed, &vec![]).map_err(|e| e.0).expect("geração");
    assert!(rust.contains("let q: i64 = titan_divmod(7, 2).0;"), "{rust}");

    let TypedTopLevel::Func { body, .. } = &mut typed[1] else {
        panic!("esperava `main` como segunda declaração");
    };
    let TypedStat::Block { stats, .. } = body.as_mut() else {
        panic!("esperava bloco no corpo de `main`");
    };
    let TypedStat::Decl { value, .. } = &mut stats[0] else {
        panic!("esperava a declaração de `q` como primeiro comando");
    };
    let old = std::mem::replace(&mut value.kind, TypedExpKind::Nil);
    let TypedExpKind::Adjust(chamada) = old else {
        panic!("esperava `Adjust`");
    };
    value.kind = TypedExpKind::Extra { exp: chamada, index: 1 };
    let rust = generate(&typed, &vec![]).map_err(|e| e.0).expect("geração");
    assert!(rust.contains("let q: i64 = titan_divmod(7, 2).1;"), "{rust}");
}

#[test]
fn swap_passa_por_temporarios_antes_de_qualquer_escrita() {
    let rust = gera(vec![main_with(vec![
        local("a", t_int(), intl(1)),
        local("b", t_int(), intl(2)),
        Stat::StatAssign { loc: at(), vars: vec![var_name("a"), var_name("b")], exps: vec![name("b"), name("a")] },
    ])]);
    let esperado = "let titan_multi_0 = b;\n    \
                    let titan_multi_1 = a;\n    \
                    a = titan_multi_0;\n    \
                    b = titan_multi_1;";
    assert!(rust.contains(esperado), "o swap não passou por temporários:\n{rust}");
}

#[test]
fn declaracao_multipla_desestrutura_a_tupla_num_let_so() {
    let rust = gera(vec![
        divmod_fn(),
        main_fn(vec![
            Stat::StatDecl {
                loc: at(),
                decls: vec![decl("q", None), decl("r", None)],
                exps: vec![call("divmod", vec![intl(7), intl(2)])],
            },
            ret(vec![bin(name("q"), "+", name("r"))]),
        ]),
    ]);
    assert!(rust.contains("let (titan_multi_0, titan_multi_1) = titan_divmod(7, 2);"), "{rust}");
    assert!(rust.contains("let q: i64 = titan_multi_0;"), "{rust}");
    assert!(rust.contains("let r: i64 = titan_multi_1;"), "{rust}");
}

#[test]
fn so_o_alvo_reatribuido_sai_mutavel() {
    let rust = gera(vec![main_fn(vec![
        Stat::StatDecl {
            loc: at(),
            decls: vec![decl("a", Some(t_int())), decl("b", Some(t_int()))],
            exps: vec![intl(1), intl(2)],
        },
        assign(var_name("a"), bin(name("a"), "+", name("b"))),
        ret(vec![name("a")]),
    ])]);
    assert!(rust.contains("let mut a: i64 = titan_multi_0;"), "{rust}");
    assert!(rust.contains("let b: i64 = titan_multi_1;"), "{rust}");
}

#[test]
fn alvos_compostos_da_atribuicao_multipla_usam_o_caminho_de_sempre() {
    let rust = gera(vec![
        record("Ponto", vec![("x", t_int()), ("y", t_int())]),
        main_with(vec![
            local("v", t_array(t_int()), list(vec![intl(10), intl(20)])),
            Stat::StatAssign {
                loc: at(),
                vars: vec![index_var(name("v"), intl(1)), index_var(name("v"), intl(2))],
                exps: vec![index(name("v"), intl(2)), index(name("v"), intl(1))],
            },
            local("p", t_name("Ponto"), record_of(vec![("x", intl(1)), ("y", intl(2))])),
            Stat::StatAssign {
                loc: at(),
                vars: vec![field_var(name("p"), "x"), field_var(name("p"), "y")],
                exps: vec![field(name("p"), "y"), field(name("p"), "x")],
            },
        ]),
    ]);
    assert!(
        rust.contains("let titan_val = titan_multi_0;")
            && rust.contains("titan_runtime::array_set(&mut v, titan_idx, titan_val);"),
        "{rust}"
    );
    assert!(
        rust.contains("(&mut p).x = titan_multi_0;") && rust.contains("(&mut p).y = titan_multi_1;"),
        "{rust}"
    );
}

#[test]
fn t69_tipo_opcional_vira_option() {
    let rust = gera(vec![main_with(vec![
        local("x", t_option(t_int()), nil()),
        if_chain(
            vec![(bin(name("x"), "~=", nil()), vec![print(concat(vec![text(""), name("x")]))])],
            None,
        ),
    ])]);
    assert!(rust.contains("let x: Option<i64> = None;"), "{rust}");
}

// ---- Own tests ------------------------------------------------------

#[test]
fn teste_de_presenca_vira_is_some_e_o_ramo_desembrulha() {
    let rust = gera(vec![main_with(vec![
        local("x", t_option(t_int()), intl(10)),
        if_chain(
            vec![(bin(name("x"), "~=", nil()), vec![print(concat(vec![text(""), name("x")]))])],
            None,
        ),
    ])]);
    assert!(rust.contains("let x: Option<i64> = Some(10);"), "{rust}");
    assert!(rust.contains("    if x.is_some() {\n        let x: i64 = x.clone().unwrap();\n"), "{rust}");
}

#[test]
fn ramo_que_reatribui_o_nome_estreitado_escreve_de_volta() {
    let rust = gera(vec![main_with(vec![
        local("x", t_option(t_int()), intl(10)),
        if_chain(vec![(bin(name("x"), "~=", nil()), vec![assign(var_name("x"), intl(2))])], None),
    ])]);
    assert!(rust.contains("let titan_opt_x: &mut Option<i64> = &mut x;"), "{rust}");
    assert!(rust.contains("let mut x: i64 = titan_opt_x.clone().unwrap();"), "{rust}");
    assert!(rust.contains("        x = 2;\n        *titan_opt_x = Some(x);\n"), "{rust}");
}

#[test]
fn float_sem_texto_na_tabela_sai_por_from_bits() {
    let typed = checked(vec![main_with(vec![local("m", t_float(), flt(1.0))])]);
    assert_eq!(float_literals(&typed), vec![1.0f64.to_bits()]);
    let rust = generate(&typed, &vec![]).map_err(|e| e.0).expect("geração");
    assert!(rust.contains("let m: f64 = f64::from_bits(4607182418800017408);"), "{rust}");
    let rust = generate(&typed, &float_table(&typed)).map_err(|e| e.0).expect("geração");
    assert!(rust.contains("let m: f64 = 1.0;"), "{rust}");
}

#[test]
fn literal_de_string_escapa_aspas_e_quebra_de_linha() {
    let rust = gera(vec![main_with(vec![print(text("a\"b\nc"))])]);
    assert!(rust.contains("titan_runtime::print(&\"a\\\"b\\nc\".to_string());"), "{rust}");
}

#[test]
fn inteiro_negativo_extremo_sai_por_extenso() {
    let rust = gera(vec![main_with(vec![local("m", t_int(), intl(i64::MIN))])]);
    assert!(rust.contains("let m: i64 = -9223372036854775808;"), "{rust}");
}

#[test]
fn foreign_function_gera_extern_c_e_chamada_insegura() {
    let rust = gera(vec![
        TopLevel::TopLevelForeignFunc {
            loc: at(),
            name: "puts".to_string(),
            params: vec![decl("s", Some(t_string()))],
            rettypes: vec![t_int()],
        },
        main_with(vec![call_stat("puts", vec![text("oi")])]),
    ]);
    assert!(
        rust.contains("unsafe extern \"C\" {\n    fn puts(s: *const std::os::raw::c_char) -> i64;\n}\n"),
        "{rust}"
    );
    assert!(
        rust.contains(
            "({ let __titan_ffi_0 = titan_runtime::ffi_cstring(&\"oi\".to_string()); unsafe { puts(__titan_ffi_0.as_ptr()) } });"
        ),
        "{rust}"
    );
}

#[test]
fn cast_para_value_e_de_volta_usa_o_runtime() {
    let rust = gera(vec![main_with(vec![
        local("v", Ann::TypeValue { loc: at() }, Exp::ExpCast { loc: at(), exp: Box::new(intl(3)), target: Ann::TypeValue { loc: at() } }),
        local("n", t_int(), Exp::ExpCast { loc: at(), exp: Box::new(name("v")), target: t_int() }),
        local("f", t_float(), Exp::ExpCast { loc: at(), exp: Box::new(name("n")), target: t_float() }),
    ])]);
    assert!(rust.contains("let v: titan_runtime::Value = titan_runtime::Value::Integer(3);"), "{rust}");
    assert!(rust.contains("let n: i64 = titan_runtime::value_to_integer(&v);"), "{rust}");
    assert!(rust.contains("let f: f64 = n as f64;"), "{rust}");
}

#[test]
fn array_para_value_converte_elemento_a_elemento() {
    let rust = gera(vec![main_with(vec![
        local("xs", t_array(t_int()), list(vec![intl(1)])),
        local(
            "v",
            Ann::TypeValue { loc: at() },
            Exp::ExpCast { loc: at(), exp: Box::new(name("xs")), target: Ann::TypeValue { loc: at() } },
        ),
    ])]);
    assert!(
        rust.contains(
            "let v: titan_runtime::Value = titan_runtime::Value::Array(xs.iter().map(|titan_e| titan_runtime::Value::Integer(*titan_e)).collect());"
        ),
        "{rust}"
    );
}

#[test]
fn erro_de_tipo_descreve_linha_coluna_e_mensagem() {
    let e = lib::checker::typed::CheckError { message: "tipo errado".to_string(), loc: Loc { line: 3, col: 17 } };
    assert_eq!(e.describe(), "erro de tipo (linha 3, coluna 17): tipo errado");
}

#[test]
fn erro_de_geracao_descreve_a_mensagem() {
    let e = lib::codegen::names::CodegenError("sem suporte".to_string());
    assert_eq!(e.describe(), "sem suporte");
}

fn import_data() -> TopLevel {
    TopLevel::TopLevelImport { loc: at(), localname: "data".to_string(), modname: "data".to_string() }
}

fn t_dataframe() -> Ann {
    Ann::TypeQualName { loc: at(), module: "data".to_string(), name: "DataFrame".to_string() }
}

fn read_csv(path: &str) -> Exp {
    Exp::ExpCall {
        loc: at(),
        exp: Box::new(field(name("data"), "read_csv")),
        args: Args::ArgsFunc { loc: at(), args: vec![text(path)] },
    }
}

fn method(recv: Exp, m: &str, args: Vec<Exp>) -> Exp {
    Exp::ExpCall { loc: at(), exp: Box::new(recv), args: Args::ArgsMethod { loc: at(), method: m.to_string(), args } }
}

#[test]
fn chamada_de_modulo_emite_caminho_qualificado_do_runtime() {
    let rust = gera(vec![import_data(), main_with(vec![local("df", t_dataframe(), read_csv("v.csv"))])]);
    assert!(rust.contains(r#"titan_data::read_csv(&"v.csv".to_string())"#), "{rust}");
    assert!(rust.contains("let df: titan_data::DataFrame = titan_data::read_csv"), "{rust}");
}

#[test]
fn chamada_de_metodo_emite_receptor_por_referencia_mutavel() {
    let rust = gera(vec![
        import_data(),
        main_with(vec![
            local("df", t_dataframe(), read_csv("v.csv")),
            local("total", t_float(), method(name("df"), "soma", vec![text("valor")])),
        ]),
    ]);
    assert!(rust.contains(r#"titan_data::soma(&mut df, &"valor".to_string())"#), "{rust}");
}

#[test]
fn variavel_de_tipo_opaco_como_parametro_e_mut_por_referencia() {
    let rust = gera(vec![
        import_data(),
        func(
            "processa",
            vec![decl("df", Some(t_dataframe()))],
            vec![t_nil()],
            vec![local("total", t_float(), method(name("df"), "soma", vec![text("valor")]))],
        ),
        main_with(vec![local("df", t_dataframe(), read_csv("v.csv")), call_stat("processa", vec![name("df")])]),
    ]);
    assert!(rust.contains("fn titan_processa(df: &mut titan_data::DataFrame)"), "{rust}");
    assert!(rust.contains("titan_processa(&mut df)"), "{rust}");
}

#[test]
fn emit_args_by_param_usa_a_posicao_certa_por_tipo_do_parametro() {
    let loc = Loc { line: 0, col: 0 };
    let ctx = EmitCtx { params: vec![], floats: vec![] };
    let args = vec![
        TypedExp { loc, ty: Type::Integer, kind: TypedExpKind::Integer(42) },
        TypedExp { loc, ty: Type::String, kind: TypedExpKind::String("oi".to_string()) },
    ];
    let params = vec![Type::Integer, Type::String];
    let rendered = emit_args_by_param(&args, &params, &ctx);
    assert_eq!(rendered, Some(vec!["42".to_string(), r#"&"oi".to_string()"#.to_string()]));
}

#[test]
fn break_e_continue_dentro_de_repeat_saem_sem_label() {
    let rust = gera(vec![main_with(vec![
        local("n", t_int(), intl(0)),
        repeat_until(
            vec![
                assign(var_name("n"), bin(name("n"), "+", intl(1))),
                if_chain(vec![(bin(name("n"), "==", intl(1)), vec![Stat::StatContinue { loc: at() }])], None),
                Stat::StatBreak { loc: at() },
            ],
            boolean(false),
        ),
    ])]);
    assert!(rust.contains("continue;"), "{rust}");
    assert!(!rust.contains("'titan"), "sem label:\n{rust}");
}

#[test]
fn desestruturacao_de_string_e_composto_nao_reclona() {
    let rust = gera(vec![
        func(
            "rotula",
            vec![decl("n", Some(t_int()))],
            vec![t_string(), t_array(t_int())],
            vec![ret(vec![text("rot"), list(vec![name("n"), bin(name("n"), "+", intl(1))])])],
        ),
        main_fn(vec![
            Stat::StatDecl {
                loc: at(),
                decls: vec![decl("s", None), decl("w", None)],
                exps: vec![call("rotula", vec![intl(5)])],
            },
            ret(vec![un("#", name("w"))]),
        ]),
    ]);
    assert!(rust.contains("let (titan_multi_0, titan_multi_1) = titan_rotula(5);"), "{rust}");
    assert!(rust.contains("let s: String = titan_multi_0;"), "{rust}");
    assert!(rust.contains("let w: Vec<i64> = titan_multi_1;"), "{rust}");
}

fn presente(x: &str) -> Exp {
    bin(name(x), "~=", nil())
}

#[test]
fn t69_valor_do_tipo_base_vira_some() {
    let rust = gera(vec![main_with(vec![
        local("x", t_option(t_int()), intl(10)),
        if_chain(vec![(presente("x"), vec![print(concat(vec![text(""), name("x")]))])], None),
    ])]);
    assert!(rust.contains("let x: Option<i64> = Some(10);"), "{rust}");
}

#[test]
fn t69_some_de_string_clona_o_valor_de_dentro() {
    let rust = gera(vec![main_with(vec![
        local("t", t_string(), text("oi")),
        local("s", t_option(t_string()), name("t")),
        if_chain(vec![(presente("s"), vec![print(name("s"))])], None),
        print(name("t")),
    ])]);
    assert!(rust.contains("let s: Option<String> = Some(t.clone());"), "{rust}");
}

#[test]
fn t69_teste_de_presenca_vira_is_some_e_is_none() {
    let rust = gera(vec![main_with(vec![
        local("x", t_option(t_int()), intl(1)),
        if_chain(vec![(presente("x"), vec![print(concat(vec![text(""), name("x")]))])], None),
        if_chain(vec![(bin(name("x"), "==", nil()), vec![print(text("vazio"))])], None),
    ])]);
    assert!(rust.contains("if x.is_some() {"), "{rust}");
    assert!(rust.contains("if x.is_none() {"), "{rust}");
    assert!(!rust.contains("x != ()"), "{rust}");
}

#[test]
fn t69_teste_de_presenca_com_nil_do_lado_esquerdo() {
    let rust = gera(vec![main_with(vec![
        local("x", t_option(t_int()), intl(1)),
        if_chain(vec![(bin(nil(), "~=", name("x")), vec![print(concat(vec![text(""), name("x")]))])], None),
    ])]);
    assert!(rust.contains("if x.is_some() {"), "{rust}");
}

#[test]
fn t69_ramo_que_so_le_abre_ligacao_simples() {
    let rust = gera(vec![main_with(vec![
        local("x", t_option(t_int()), intl(1)),
        if_chain(vec![(presente("x"), vec![print(concat(vec![text(""), name("x")]))])], None),
    ])]);
    assert!(rust.contains("let x: i64 = x.clone().unwrap();"), "{rust}");
    assert!(!rust.contains("titan_opt_x"), "{rust}");
}

#[test]
fn t69_atribuicao_no_ramo_estreitado_volta_para_a_variavel_externa() {
    let rust = gera(vec![main_with(vec![
        local("x", t_option(t_int()), intl(1)),
        if_chain(vec![(presente("x"), vec![assign(var_name("x"), bin(name("x"), "+", intl(10)))])], None),
    ])]);
    assert!(rust.contains("let titan_opt_x: &mut Option<i64> = &mut x;"), "{rust}");
    assert!(rust.contains("let mut x: i64 = titan_opt_x.clone().unwrap();"), "{rust}");
    assert!(rust.contains("*titan_opt_x = Some(x);"), "{rust}");
}

#[test]
fn t69_nome_estreitado_sem_uso_nao_abre_ligacao() {
    let rust = gera(vec![main_with(vec![
        local("x", t_option(t_int()), intl(1)),
        if_chain(vec![(presente("x"), vec![print(text("presente"))])], None),
    ])]);
    assert!(!rust.contains("let x: i64"), "{rust}");
}

#[test]
fn t69_composto_dentro_de_opcional() {
    let rust = gera(vec![
        func("f", vec![], vec![t_option(t_array(t_int()))], vec![ret(vec![nil()])]),
        main_with(vec![
            local("v", t_option(t_array(t_int())), call("f", vec![])),
            if_chain(vec![(presente("v"), vec![print(concat(vec![text(""), un("#", name("v"))]))])], None),
        ]),
    ]);
    assert!(rust.contains("pub fn titan_f() -> Option<Vec<i64>> {"), "{rust}");
    assert!(rust.contains("let v: Vec<i64> = v.clone().unwrap();"), "{rust}");
}

#[test]
fn t70_cast_de_identidade_nao_emite_conversao() {
    let rust = gera(vec![main_fn(vec![
        local("x", t_int(), Exp::ExpCast { loc: at(), exp: Box::new(intl(5)), target: t_int() }),
        ret(vec![name("x")]),
    ])]);
    assert!(rust.contains("let x: i64 = 5;"), "{rust}");
}

fn foreign(n: &str, params: Vec<(&str, Ann)>, rettypes: Vec<Ann>) -> TopLevel {
    TopLevel::TopLevelForeignFunc {
        loc: at(),
        name: n.to_string(),
        params: params.into_iter().map(|(p, t)| decl(p, Some(t))).collect(),
        rettypes,
    }
}

fn abs_program() -> Vec<TopLevel> {
    vec![
        foreign("abs", vec![("n", t_int())], vec![t_int()]),
        main_fn(vec![ret(vec![call("abs", vec![un("-", intl(7))])])]),
    ]
}

#[test]
fn t73_foreign_function_emite_bloco_extern_c() {
    let rust = gera(abs_program());
    assert!(rust.contains("unsafe extern \"C\" {\n    fn abs(n: i64) -> i64;\n}"), "{rust}");
}

#[test]
fn t73_foreign_function_nao_sofre_mangling() {
    let rust = gera(abs_program());
    assert!(rust.contains("fn abs(n: i64) -> i64;"), "{rust}");
    assert!(!rust.contains("titan_abs"), "{rust}");
    assert!(rust.contains("pub fn titan_main"), "{rust}");
}

#[test]
fn t73_chamada_a_foreign_function_sai_dentro_de_unsafe() {
    let rust = gera(abs_program());
    assert!(rust.contains("unsafe { abs(-7) }"), "{rust}");
}

#[test]
fn t73_chamada_sem_string_nao_gera_ligacao_temporaria() {
    let rust = gera(abs_program());
    assert!(!rust.contains("__titan_ffi_"), "{rust}");
}

#[test]
fn t73_string_na_fronteira_vira_c_char_com_cstring_viva() {
    let rust = gera(vec![
        foreign("strlen", vec![("s", t_string())], vec![t_int()]),
        main_fn(vec![ret(vec![call("strlen", vec![text("titan")])])]),
    ]);
    assert!(rust.contains("fn strlen(s: *const std::os::raw::c_char) -> i64;"), "{rust}");
    assert!(rust.contains("let __titan_ffi_0 = titan_runtime::ffi_cstring("), "{rust}");
    assert!(rust.contains("strlen(__titan_ffi_0.as_ptr())"), "{rust}");
}

#[test]
fn t73_retorno_string_passa_por_ffi_string() {
    let rust = gera(vec![
        foreign("getenv", vec![("nome", t_string())], vec![t_string()]),
        main_with(vec![print(call("getenv", vec![text("PATH")]))]),
    ]);
    assert!(
        rust.contains("fn getenv(nome: *const std::os::raw::c_char) -> *const std::os::raw::c_char;"),
        "{rust}"
    );
    assert!(rust.contains("titan_runtime::ffi_string(getenv("), "{rust}");
}

#[test]
fn t73_foreign_function_sem_retorno_nao_emite_seta() {
    let rust = gera(vec![foreign("sync", vec![], vec![]), main_with(vec![call_stat("sync", vec![])])]);
    assert!(rust.contains("fn sync();"), "{rust}");
}

#[test]
fn campo_de_variante_usa_box_quando_boxeado() {
    let inteiro = Type::Integer;
    assert_eq!(rust_field_type_name(&inteiro, false), Some("i64".to_string()));
    assert_eq!(rust_field_type_name(&inteiro, true), Some("Box<i64>".to_string()));
    let arr = Type::Array { elem: Box::new(Type::String) };
    assert_eq!(rust_field_type_name(&arr, true), Some("Box<Vec<String>>".to_string()));
}
