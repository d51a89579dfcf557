#![allow(dead_code)]
use lib::ast::{Args, Decl, Exp, Field, FieldName, Loc, Stat, Then, TopLevel, Type as Ann, Var};
use lib::checker::toplevel::check;
use lib::checker::state::Checker;
use lib::checker::symtab::SymbolKind;
use lib::checker::typed::{
    BinOp, Callee, CastKind, CheckError, TypedExp, TypedExpKind, TypedLValue, TypedMultiValues, TypedStat, TypedTopLevel, UnOp,
};
use lib::types::Type;

fn at() -> Loc {
    Loc { line: 2, col: 5 }
}

fn intl(v: i64) -> Exp {
    Exp::ExpInteger { loc: at(), value: v }
}

fn flt(v: f64) -> Exp {
    Exp::ExpFloat { loc: at(), bits: v.to_bits() }
}

fn text(v: &str) -> Exp {
    Exp::ExpString { loc: at(), value: v.to_string() }
}

fn boolean(v: bool) -> Exp {
    Exp::ExpBool { loc: at(), value: v }
}

fn nil() -> Exp {
    Exp::ExpNil { loc: at() }
}

fn bin(lhs: Exp, op: &str, rhs: Exp) -> Exp {
    Exp::ExpBinop { loc: at(), lhs: Box::new(lhs), op: op.to_string(), rhs: Box::new(rhs) }
}

fn un(op: &str, e: Exp) -> Exp {
    Exp::ExpUnop { loc: at(), op: op.to_string(), exp: Box::new(e) }
}

fn concat(exps: Vec<Exp>) -> Exp {
    Exp::ExpConcat { loc: at(), exps }
}

fn cast(e: Exp, t: Ann) -> Exp {
    Exp::ExpCast { loc: at(), exp: Box::new(e), target: t }
}

fn var_name(n: &str) -> Var {
    Var::VarName { loc: at(), name: n.to_string() }
}

fn name(n: &str) -> Exp {
    Exp::ExpVar { loc: at(), var: Box::new(var_name(n)) }
}

fn index_var(base: Exp, i: Exp) -> Var {
    Var::VarBracket { loc: at(), exp1: Box::new(base), exp2: Box::new(i) }
}

fn index(base: Exp, i: Exp) -> Exp {
    Exp::ExpVar { loc: at(), var: Box::new(index_var(base, i)) }
}

fn dot_var(base: Exp, n: &str) -> Var {
    Var::VarDot { loc: at(), exp: Box::new(base), name: n.to_string() }
}

fn dot(base: Exp, n: &str) -> Exp {
    Exp::ExpVar { loc: at(), var: Box::new(dot_var(base, n)) }
}

fn list(exps: Vec<Exp>) -> Exp {
    Exp::ExpInitList {
        loc: at(),
        fields: exps.into_iter().map(|e| Field { loc: at(), name: FieldName::Positional, exp: e }).collect(),
    }
}

fn map_of(pairs: Vec<(Exp, Exp)>) -> Exp {
    Exp::ExpInitList {
        loc: at(),
        fields: pairs
            .into_iter()
            .map(|(k, v)| Field { loc: at(), name: FieldName::Key(Box::new(k)), exp: v })
            .collect(),
    }
}

fn record_of(pairs: Vec<(&str, Exp)>) -> Exp {
    Exp::ExpInitList {
        loc: at(),
        fields: pairs
            .into_iter()
            .map(|(n, v)| Field { loc: at(), name: FieldName::Name(n.to_string()), exp: v })
            .collect(),
    }
}

/// `f(args)`
fn call(f: &str, args: Vec<Exp>) -> Exp {
    Exp::ExpCall { loc: at(), exp: Box::new(name(f)), args: Args::ArgsFunc { loc: at(), args } }
}

/// `base.f(args)`
fn dcall(base: Exp, f: &str, args: Vec<Exp>) -> Exp {
    Exp::ExpCall { loc: at(), exp: Box::new(dot(base, f)), args: Args::ArgsFunc { loc: at(), args } }
}

/// `recv:m(args)`
fn mcall(recv: Exp, m: &str, args: Vec<Exp>) -> Exp {
    Exp::ExpCall {
        loc: at(),
        exp: Box::new(recv),
        args: Args::ArgsMethod { loc: at(), method: m.to_string(), args },
    }
}

fn t_int() -> Ann {
    Ann::TypeInteger { loc: at() }
}

fn t_float() -> Ann {
    Ann::TypeFloat { loc: at() }
}

fn t_string() -> Ann {
    Ann::TypeString { loc: at() }
}

fn t_bool() -> Ann {
    Ann::TypeBoolean { loc: at() }
}

fn t_value() -> Ann {
    Ann::TypeValue { loc: at() }
}

fn t_array(t: Ann) -> Ann {
    Ann::TypeArray { loc: at(), subtype: Box::new(t) }
}

fn t_map(k: Ann, v: Ann) -> Ann {
    Ann::TypeMap { loc: at(), keystype: Box::new(k), valuestype: Box::new(v) }
}

fn t_option(t: Ann) -> Ann {
    Ann::TypeOption { loc: at(), basetype: Box::new(t) }
}

fn t_name(n: &str) -> Ann {
    Ann::TypeName { loc: at(), name: n.to_string() }
}

fn t_qual(m: &str, n: &str) -> Ann {
    Ann::TypeQualName { loc: at(), module: m.to_string(), name: n.to_string() }
}

fn decl(n: &str, ty: Option<Ann>) -> Decl {
    Decl { loc: at(), name: n.to_string(), ty, option: false }
}

/// `x?` with an optional annotation.
fn decl_opt(n: &str, ty: Option<Ann>) -> Decl {
    Decl { loc: at(), name: n.to_string(), ty, option: true }
}

fn param(n: &str, ty: Ann) -> Decl {
    decl(n, Some(ty))
}

fn local(n: &str, ty: Option<Ann>, e: Exp) -> Stat {
    Stat::StatDecl { loc: at(), decls: vec![decl(n, ty)], exps: vec![e] }
}

fn local_multi(decls: Vec<Decl>, exps: Vec<Exp>) -> Stat {
    Stat::StatDecl { loc: at(), decls, exps }
}

fn assign(v: Var, e: Exp) -> Stat {
    Stat::StatAssign { loc: at(), vars: vec![v], exps: vec![e] }
}

fn assign_multi(vars: Vec<Var>, exps: Vec<Exp>) -> Stat {
    Stat::StatAssign { loc: at(), vars, exps }
}

fn set(n: &str, e: Exp) -> Stat {
    assign(var_name(n), e)
}

fn block(stats: Vec<Stat>) -> Stat {
    Stat::StatBlock { loc: at(), stats }
}

fn do_call(e: Exp) -> Stat {
    Stat::StatCall { loc: at(), callexp: e }
}

fn print(e: Exp) -> Stat {
    do_call(call("print", vec![e]))
}

fn if_then(cond: Exp, body: Vec<Stat>) -> Stat {
    Stat::StatIf { loc: at(), thens: vec![Then { loc: at(), condition: cond, block: block(body) }], elsestat: None }
}

fn if_else(cond: Exp, body: Vec<Stat>, other: Vec<Stat>) -> Stat {
    Stat::StatIf {
        loc: at(),
        thens: vec![Then { loc: at(), condition: cond, block: block(body) }],
        elsestat: Some(Box::new(block(other))),
    }
}

fn if_chain(branches: Vec<(Exp, Vec<Stat>)>, other: Option<Vec<Stat>>) -> Stat {
    Stat::StatIf {
        loc: at(),
        thens: branches.into_iter().map(|(c, b)| Then { loc: at(), condition: c, block: block(b) }).collect(),
        elsestat: other.map(|o| Box::new(block(o))),
    }
}

fn while_do(cond: Exp, body: Vec<Stat>) -> Stat {
    Stat::StatWhile { loc: at(), condition: cond, block: Box::new(block(body)) }
}

fn repeat_until(body: Vec<Stat>, cond: Exp) -> Stat {
    Stat::StatRepeat { loc: at(), block: Box::new(block(body)), condition: cond }
}

fn for_num(d: Decl, start: Exp, finish: Exp, inc: Option<Exp>, body: Vec<Stat>) -> Stat {
    Stat::StatFor {
        loc: at(),
        decl: Box::new(d),
        start: Box::new(start),
        finish: Box::new(finish),
        inc: inc.map(Box::new),
        block: Box::new(block(body)),
    }
}

fn for_in(decls: Vec<Decl>, e: Exp, body: Vec<Stat>) -> Stat {
    Stat::StatForIn { loc: at(), decls, exp: e, block: Box::new(block(body)) }
}

fn ret(exps: Vec<Exp>) -> Stat {
    Stat::StatReturn { loc: at(), exps }
}

fn brk() -> Stat {
    Stat::StatBreak { loc: at() }
}

fn cont() -> Stat {
    Stat::StatContinue { loc: at() }
}

fn func(n: &str, params: Vec<Decl>, rettypes: Vec<Ann>, body: Vec<Stat>) -> TopLevel {
    TopLevel::TopLevelFunc { loc: at(), islocal: false, name: n.to_string(), params, rettypes, block: block(body) }
}

/// `function main(args: {string}): integer <body> return 0 end`
fn main_with(mut body: Vec<Stat>) -> TopLevel {
    body.push(ret(vec![intl(0)]));
    main_raw(body)
}

/// `function main(args: {string}): integer <body> end`
fn main_raw(body: Vec<Stat>) -> TopLevel {
    func("main", vec![param("args", t_array(t_string()))], vec![t_int()], body)
}

fn import(localname: &str, modname: &str) -> TopLevel {
    TopLevel::TopLevelImport { loc: at(), localname: localname.to_string(), modname: modname.to_string() }
}

fn foreign(n: &str, params: Vec<Decl>, rettypes: Vec<Ann>) -> TopLevel {
    TopLevel::TopLevelForeignFunc { loc: at(), name: n.to_string(), params, rettypes }
}

fn record(n: &str, fields: Vec<Decl>) -> TopLevel {
    TopLevel::TopLevelRecord { loc: at(), name: n.to_string(), fields }
}

fn mensagens(errs: &[CheckError]) -> String {
    errs.iter().map(|e| e.message.clone()).collect::<Vec<_>>().join(" | ")
}

fn check_src(program: Vec<TopLevel>) -> Result<Vec<TypedTopLevel>, Vec<CheckError>> {
    check(&program).map(|c| c.program)
}

fn aceita(program: Vec<TopLevel>) -> Vec<TypedTopLevel> {
    match check_src(program) {
        Ok(p) => p,
        Err(errs) => panic!("esperava sucesso, obteve: {}", mensagens(&errs)),
    }
}

fn erros(program: Vec<TopLevel>) -> Vec<CheckError> {
    match check_src(program) {
        Ok(_) => panic!("esperava erro de tipo"),
        Err(errs) => errs,
    }
}

fn algum_erro(program: Vec<TopLevel>, trecho: &str) {
    let errs = erros(program);
    assert!(errs.iter().any(|e| e.message.contains(trecho)), "esperava {trecho:?}, obteve: {}", mensagens(&errs));
}

/// Statements of the body of the first function of an accepted program.
fn corpo(program: Vec<TopLevel>) -> Vec<TypedStat> {
    corpo_da(aceita(program), 0)
}

fn corpo_da(typed: Vec<TypedTopLevel>, i: usize) -> Vec<TypedStat> {
    let Some(TypedTopLevel::Func { body, .. }) = typed.into_iter().nth(i) else {
        panic!("esperava TypedTopLevel::Func");
    };
    let TypedStat::Block { stats, .. } = *body else {
        panic!("esperava TypedStat::Block como corpo");
    };
    stats
}

fn decl_value(stat: &TypedStat) -> &TypedExp {
    let TypedStat::Decl { value, .. } = stat else {
        panic!("esperava TypedStat::Decl, obteve {stat:?}");
    };
    value
}

fn decl_mutable(stat: &TypedStat) -> bool {
    let TypedStat::Decl { mutable, .. } = stat else {
        panic!("esperava TypedStat::Decl, obteve {stat:?}");
    };
    *mutable
}

fn decl_type(stat: &TypedStat) -> &Type {
    let TypedStat::Decl { ty, .. } = stat else {
        panic!("esperava TypedStat::Decl, obteve {stat:?}");
    };
    ty
}

fn arr(t: Type) -> Type {
    Type::Array { elem: Box::new(t) }
}

fn opt(t: Type) -> Type {
    Type::Option { base: Box::new(t) }
}

fn dict(k: Type, v: Type) -> Type {
    Type::Dict { keys: Box::new(k), values: Box::new(v) }
}

fn data_frame() -> Type {
    Type::Opaque {
        module: "data".to_string(),
        name: "DataFrame".to_string(),
        rust_path: "titan_data::DataFrame".to_string(),
    }
}

#[test]
fn print_com_argumento_incompativel_produz_erro() {
    let errs = erros(vec![main_with(vec![print(intl(42))])]);
    assert!(errs.iter().any(|e| e.message.contains("incompatível")));
}

#[test]
fn chamada_a_funcao_nao_declarada_produz_erro() {
    let errs = erros(vec![main_with(vec![do_call(call("funcao_inexistente", vec![]))])]);
    assert!(errs.iter().any(|e| e.message.contains("não foi declarada")));
}

#[test]
fn main_retornando_string_produz_erro_de_retorno_incompativel() {
    let errs = erros(vec![main_raw(vec![ret(vec![text("oi")])])]);
    assert!(errs.iter().any(|e| e.message.contains("retorno incompatível")));
}

#[test]
fn assinatura_de_main_invalida_produz_erro() {
    let errs = erros(vec![func("main", vec![], vec![t_int()], vec![ret(vec![intl(0)])])]);
    assert!(errs.iter().any(|e| e.message.contains("main")));
}

#[test]
fn atribuicao_multipla_montada_a_mao_tipa_desde_a_t67() {
    let stats = corpo(vec![main_with(vec![
        local("a", Some(t_int()), intl(0)),
        local("b", Some(t_int()), intl(0)),
        assign_multi(vec![var_name("a"), var_name("b")], vec![intl(1), intl(2)]),
    ])]);
    assert!(matches!(stats[2], TypedStat::AssignMulti { .. }));
    for (i, stat) in stats.iter().take(2).enumerate() {
        assert!(decl_mutable(stat), "a declaração {i} devia sair mutável");
    }
}

fn abs_foreign() -> TopLevel {
    foreign("abs", vec![param("n", t_int())], vec![t_int()])
}

#[test]
fn foreign_function_registra_o_simbolo_e_a_chamada_tipa() {
    let typed = aceita(vec![abs_foreign(), main_raw(vec![ret(vec![call("abs", vec![un("-", intl(7))])])])]);
    let foreign = typed
        .iter()
        .find_map(|t| match t {
            TypedTopLevel::ForeignFunc { name, params, rettypes, .. } => Some((name, params, rettypes)),
            _ => None,
        })
        .expect("esperava um TypedTopLevel::ForeignFunc");
    assert_eq!(foreign.0, "abs");
    assert_eq!(foreign.1, &vec![("n".to_string(), Type::Integer)]);
    assert_eq!(foreign.2, &vec![Type::Integer]);
}

#[test]
fn chamada_a_foreign_function_produz_callee_foreign() {
    let typed = aceita(vec![abs_foreign(), main_raw(vec![ret(vec![call("abs", vec![un("-", intl(7))])])])]);
    let mut achou = false;
    for top in &typed {
        let TypedTopLevel::Func { body, .. } = top else { continue };
        let TypedStat::Block { stats, .. } = body.as_ref() else { continue };
        for stat in stats {
            let TypedStat::Return { exps, .. } = stat else { continue };
            let TypedExpKind::Call { callee, .. } = &exps[0].kind else { continue };
            assert_eq!(*callee, Callee::Foreign("abs".to_string()));
            achou = true;
        }
    }
    assert!(achou, "esperava encontrar a chamada a `abs` no corpo de main");
}

#[test]
fn foreign_function_sem_retorno_e_aceita() {
    aceita(vec![foreign("sync", vec![], vec![]), main_with(vec![do_call(call("sync", vec![]))])]);
}

#[test]
fn foreign_function_com_string_na_fronteira_e_aceita() {
    aceita(vec![
        foreign("strlen", vec![param("s", t_string())], vec![t_int()]),
        main_raw(vec![ret(vec![call("strlen", vec![text("abc")])])]),
    ]);
}

#[test]
fn foreign_function_com_record_na_fronteira_da_erro_claro() {
    let errs = erros(vec![
        record("Ponto", vec![param("x", t_int()), param("y", t_int())]),
        foreign("dist", vec![param("p", t_name("Ponto"))], vec![t_float()]),
        main_with(vec![]),
    ]);
    let msg = mensagens(&errs);
    assert!(msg.contains("fronteira de FFI") && msg.contains("Ponto"), "{msg}");
}

#[test]
fn foreign_function_com_retorno_composto_da_erro_claro() {
    let errs = erros(vec![foreign("nomes", vec![], vec![t_array(t_string())]), main_with(vec![])]);
    let msg = mensagens(&errs);
    assert!(msg.contains("fronteira de FFI") && msg.contains("o retorno"), "{msg}");
}

#[test]
fn foreign_function_com_value_na_fronteira_da_erro_claro() {
    let errs = erros(vec![foreign("f", vec![param("v", t_value())], vec![t_int()]), main_with(vec![])]);
    assert!(mensagens(&errs).contains("fronteira de FFI"));
}

#[test]
fn foreign_function_com_opcional_na_fronteira_da_erro_claro() {
    let errs = erros(vec![foreign("f", vec![param("n", t_option(t_int()))], vec![t_int()]), main_with(vec![])]);
    assert!(mensagens(&errs).contains("fronteira de FFI"));
}

#[test]
fn foreign_function_com_dois_retornos_da_erro_claro() {
    let errs = erros(vec![
        foreign("divmod", vec![param("a", t_int()), param("b", t_int())], vec![t_int(), t_int()]),
        main_with(vec![]),
    ]);
    assert!(mensagens(&errs).contains("não pode ter mais de um retorno"), "{}", mensagens(&errs));
}

#[test]
fn foreign_function_acumula_os_erros_de_fronteira() {
    let errs = erros(vec![
        foreign("f", vec![param("xs", t_array(t_int())), param("ys", t_array(t_string()))], vec![t_int()]),
        main_with(vec![]),
    ]);
    let fronteira = errs.iter().filter(|e| e.message.contains("fronteira de FFI")).count();
    assert_eq!(fronteira, 2, "obteve: {}", mensagens(&errs));
}

#[test]
fn foreign_function_colidindo_com_funcao_titan_da_erro_claro() {
    let errs = erros(vec![
        abs_foreign(),
        func("abs", vec![param("n", t_int())], vec![t_int()], vec![ret(vec![name("n")])]),
        main_with(vec![]),
    ]);
    assert!(mensagens(&errs).contains("já foi declarado antes"));
}

#[test]
fn chamada_a_foreign_function_com_argumento_de_tipo_errado_da_erro_claro() {
    let errs = erros(vec![abs_foreign(), main_raw(vec![ret(vec![call("abs", vec![text("x")])])])]);
    assert!(!errs.is_empty(), "esperava erro de tipo no argumento");
}

#[test]
fn import_data_e_aceito_e_registra_o_simbolo() {
    let typed = aceita(vec![import("data", "data"), main_with(vec![])]);
    assert_eq!(typed.len(), 1);
}

#[test]
fn parametro_com_tipo_qualificado_do_modulo_importado_resolve() {
    let typed = aceita(vec![
        import("data", "data"),
        func("usa", vec![param("df", t_qual("data", "DataFrame"))], vec![t_int()], vec![ret(vec![intl(0)])]),
        main_with(vec![]),
    ]);
    let TypedTopLevel::Func { params, .. } = &typed[0] else {
        panic!("esperava TypedTopLevel::Func, obteve {:?}", typed[0]);
    };
    assert_eq!(params[0].1, data_frame());
}

#[test]
fn import_de_capability_inexistente_produz_erro_com_lista_de_disponiveis() {
    let errs = erros(vec![import("inexistente", "inexistente"), main_with(vec![])]);
    assert!(errs.iter().any(|e| {
        e.message.contains("capability 'inexistente' não existe")
            && e.message.contains("disponíveis")
            && e.message.contains("data")
    }));
}

#[test]
fn import_duplicado_produz_erro_claro() {
    algum_erro(vec![import("data", "data"), import("data", "data"), main_with(vec![])], "'data' já foi declarado antes");
}

#[test]
fn tipo_qualificado_de_modulo_nao_importado_produz_erro_claro() {
    algum_erro(
        vec![main_with(vec![local("df", Some(t_qual("data", "DataFrame")), nil())])],
        "módulo 'data' não foi importado",
    );
}

#[test]
fn tipo_inexistente_no_modulo_importado_produz_erro_distinto() {
    algum_erro(
        vec![import("data", "data"), main_with(vec![local("s", Some(t_qual("data", "Series")), nil())])],
        "o módulo 'data' não tem o tipo 'Series'",
    );
}

#[test]
fn atribuir_a_um_modulo_importado_produz_erro_claro() {
    algum_erro(
        vec![import("data", "data"), main_with(vec![set("data", intl(1))])],
        "não é possível atribuir ao módulo 'data'",
    );
}

#[test]
fn usar_modulo_importado_como_valor_produz_erro_claro() {
    algum_erro(
        vec![import("data", "data"), main_with(vec![local("x", None, name("data"))])],
        "'data' é um módulo, não um valor",
    );
}

fn read_csv(module: &str, args: Vec<Exp>) -> Exp {
    dcall(name(module), "read_csv", args)
}

fn df_local(module: &str) -> Stat {
    local("df", Some(t_qual(module, "DataFrame")), read_csv(module, vec![text("v.csv")]))
}

#[test]
fn chamada_qualificada_de_funcao_de_modulo_e_aceita_e_tipa_o_opaco() {
    let stats = corpo(vec![import("data", "data"), main_with(vec![df_local("data")])]);
    let value = decl_value(&stats[0]);
    assert_eq!(value.ty, data_frame());
    assert!(matches!(
        &value.kind,
        TypedExpKind::Call { callee: Callee::Module { module, name }, .. } if module == "data" && name == "read_csv"
    ));
}

#[test]
fn funcao_inexistente_no_modulo_produz_erro_claro() {
    algum_erro(
        vec![
            import("data", "data"),
            main_with(vec![local("df", Some(t_qual("data", "DataFrame")), dcall(name("data"), "foo", vec![text("v.csv")]))]),
        ],
        "o módulo 'data' não tem função 'foo'",
    );
}

#[test]
fn chamada_qualificada_com_aridade_errada_produz_erro() {
    algum_erro(
        vec![
            import("data", "data"),
            main_with(vec![local(
                "df",
                Some(t_qual("data", "DataFrame")),
                read_csv("data", vec![text("v.csv"), text("extra")]),
            )]),
        ],
        "espera",
    );
}

#[test]
fn chamada_qualificada_com_argumento_de_tipo_errado_produz_erro() {
    algum_erro(
        vec![
            import("data", "data"),
            main_with(vec![local("df", Some(t_qual("data", "DataFrame")), read_csv("data", vec![intl(42)]))]),
        ],
        "incompatível",
    );
}

fn total(metodo: Exp) -> Stat {
    local("total", Some(t_float()), metodo)
}

#[test]
fn metodo_sobre_opaco_e_aceito_e_tipa_float() {
    let stats = corpo(vec![
        import("data", "data"),
        main_with(vec![df_local("data"), total(dcall(name("df"), "soma", vec![text("valor")]))]),
    ]);
    let value = decl_value(&stats[1]);
    assert_eq!(value.ty, Type::Float);
    assert!(matches!(
        &value.kind,
        TypedExpKind::Call { callee: Callee::Method { module, name, .. }, .. } if module == "data" && name == "soma"
    ));
}

#[test]
fn metodo_inexistente_no_opaco_produz_erro_distinto_de_funcao_de_modulo() {
    let errs = erros(vec![
        import("data", "data"),
        main_with(vec![df_local("data"), total(dcall(name("df"), "foo", vec![text("valor")]))]),
    ]);
    assert!(errs.iter().any(|e| e.message.contains("'data.DataFrame' não tem método 'foo'")));
    assert!(errs.iter().all(|e| !e.message.contains("não tem função")));
}

#[test]
fn acessar_campo_de_opaco_e_rejeitado_com_mensagem_especifica() {
    let errs = erros(vec![
        import("data", "data"),
        main_with(vec![df_local("data"), local("x", None, dot(name("df"), "campo"))]),
    ]);
    assert!(errs
        .iter()
        .any(|e| e.message.contains("não tem campos acessíveis") && e.message.contains("tipo opaco")));
}

#[test]
fn metodo_com_argumento_de_tipo_errado_produz_erro() {
    algum_erro(
        vec![import("data", "data"), main_with(vec![df_local("data"), total(dcall(name("df"), "soma", vec![intl(42)]))])],
        "incompatível",
    );
}

#[test]
fn import_com_alias_resolve_tipo_e_chamada_pelo_nome_local() {
    let stats = corpo(vec![import("d", "data"), main_with(vec![df_local("d")])]);
    let value = decl_value(&stats[0]);
    assert_eq!(value.ty, data_frame());
    assert!(matches!(
        &value.kind,
        TypedExpKind::Call { callee: Callee::Module { module, name }, .. } if module == "data" && name == "read_csv"
    ));
}

#[test]
fn import_com_alias_nao_deixa_o_nome_do_modulo_em_escopo() {
    algum_erro(vec![import("d", "data"), main_with(vec![df_local("data")])], "módulo 'data' não foi importado");
}

#[test]
fn funcao_inexistente_sob_alias_cita_o_nome_local() {
    algum_erro(
        vec![
            import("d", "data"),
            main_with(vec![local("df", Some(t_qual("d", "DataFrame")), dcall(name("d"), "foo", vec![text("v.csv")]))]),
        ],
        "o módulo 'd' não tem função 'foo'",
    );
}

#[test]
fn alias_colidindo_com_nome_ja_declarado_produz_erro_claro() {
    algum_erro(
        vec![import("soma", "data"), func("soma", vec![], vec![t_int()], vec![ret(vec![intl(0)])]), main_with(vec![])],
        "'soma' já foi declarado antes",
    );
}

#[test]
fn dois_aliases_para_o_mesmo_modulo_convivem() {
    aceita(vec![
        import("a", "data"),
        import("b", "data"),
        main_with(vec![local("df", Some(t_qual("a", "DataFrame")), read_csv("b", vec![text("v.csv")]))]),
    ]);
}

#[test]
fn metodo_com_dois_pontos_produz_o_mesmo_typedexp_que_com_ponto() {
    let programa = |m: Exp| vec![import("data", "data"), main_with(vec![df_local("data"), total(m)])];
    let ponto = corpo(programa(dcall(name("df"), "soma", vec![text("valor")])));
    let dois = corpo(programa(mcall(name("df"), "soma", vec![text("valor")])));
    let (ponto, dois) = (decl_value(&ponto[1]), decl_value(&dois[1]));
    assert_eq!(ponto.ty, dois.ty);
    assert_eq!(ponto.kind, dois.kind);
}

#[test]
fn metodo_com_dois_pontos_sobre_nao_opaco_produz_erro_claro() {
    algum_erro(
        vec![main_with(vec![
            local("x", Some(t_int()), intl(1)),
            local("y", Some(t_int()), mcall(name("x"), "soma", vec![intl(2)])),
        ])],
        "só é possível chamar um nome de função",
    );
}

#[test]
fn metodo_inexistente_com_dois_pontos_produz_o_mesmo_erro_que_com_ponto() {
    algum_erro(
        vec![import("data", "data"), main_with(vec![df_local("data"), total(mcall(name("df"), "foo", vec![text("valor")]))])],
        "'data.DataFrame' não tem método 'foo'",
    );
}

#[test]
fn dois_pontos_funciona_sob_alias() {
    aceita(vec![import("d", "data"), main_with(vec![df_local("d"), total(mcall(name("df"), "soma", vec![text("valor")]))])]);
}

#[test]
fn chamada_antes_da_declaracao_e_permitida() {
    let result = check_src(vec![
        func("chamador", vec![], vec![t_int()], vec![ret(vec![call("chamado", vec![])])]),
        func("chamado", vec![], vec![t_int()], vec![ret(vec![intl(1)])]),
    ]);
    match result {
        Ok(_) => panic!("esperava erro só por falta de 'main' válida"),
        Err(errs) => assert!(errs.iter().all(|e| e.message.contains("main"))),
    }
}

#[test]
fn aceita_if_while_for_e_atribuicao() {
    let stats = corpo(vec![main_raw(vec![
        local("x", Some(t_int()), intl(0)),
        if_else(boolean(true), vec![set("x", intl(1))], vec![set("x", intl(2))]),
        while_do(boolean(false), vec![set("x", intl(3))]),
        for_num(decl("i", None), intl(1), intl(10), None, vec![set("x", intl(4))]),
        ret(vec![name("x")]),
    ])]);
    let TypedStat::If { thens, elsestat, .. } = &stats[1] else {
        panic!("esperava TypedStat::If, obteve {:?}", stats[1]);
    };
    assert_eq!(thens.len(), 1);
    assert_eq!(thens[0].condition.ty, Type::Boolean);
    assert!(elsestat.is_some());
    let TypedStat::While { condition, .. } = &stats[2] else {
        panic!("esperava TypedStat::While, obteve {:?}", stats[2]);
    };
    assert_eq!(condition.ty, Type::Boolean);
    let TypedStat::For { ty, inc, .. } = &stats[3] else {
        panic!("esperava TypedStat::For, obteve {:?}", stats[3]);
    };
    assert_eq!(*ty, Type::Integer);
    assert!(matches!(inc.kind, TypedExpKind::Integer(1)));
}

#[test]
fn condicao_de_if_nao_boolean_produz_erro() {
    let errs = erros(vec![main_with(vec![if_then(intl(42), vec![])])]);
    assert!(errs.iter().any(|e| e.message.contains("condição") && e.message.contains("boolean")));
}

#[test]
fn condicao_de_while_nao_boolean_produz_erro() {
    let errs = erros(vec![main_with(vec![while_do(text("oi"), vec![])])]);
    assert!(errs.iter().any(|e| e.message.contains("condição") && e.message.contains("boolean")));
}

#[test]
fn for_com_variavel_nao_numerica_produz_erro() {
    algum_erro(vec![main_with(vec![for_num(decl("x", None), text("a"), intl(10), None, vec![])])], "integer ou float");
}

#[test]
fn for_com_tipos_nao_identicos_produz_erro() {
    algum_erro(vec![main_with(vec![for_num(decl("x", None), intl(1), flt(10.0), None, vec![])])], "mesmo tipo");
}

#[test]
fn for_float_ganha_inc_default_float() {
    let stats = corpo(vec![main_with(vec![for_num(decl("f", None), flt(1.5), flt(2.5), None, vec![])])]);
    let TypedStat::For { ty, inc, .. } = &stats[0] else {
        panic!("esperava TypedStat::For");
    };
    assert_eq!(*ty, Type::Float);
    assert_eq!(inc.ty, Type::Float);
    assert!(matches!(inc.kind, TypedExpKind::Float(v) if f64::from_bits(v) == 1.0));
}

#[test]
fn variavel_do_for_nao_vaza_do_laco() {
    algum_erro(
        vec![main_with(vec![for_num(decl("i", None), intl(1), intl(10), None, vec![]), set("i", intl(5))])],
        "'i' não foi declarado",
    );
}

#[test]
fn atribuir_a_variavel_de_controle_do_for_e_permitido() {
    aceita(vec![main_with(vec![for_num(decl("i", None), intl(1), intl(10), None, vec![set("i", intl(5))])])]);
}

#[test]
fn atribuicao_sem_declaracao_produz_erro() {
    algum_erro(vec![main_with(vec![set("x", intl(10))])], "'x' não foi declarado");
}

#[test]
fn atribuir_a_funcao_produz_erro() {
    algum_erro(vec![main_with(vec![set("print", intl(1))])], "não é possível atribuir a uma função");
}

#[test]
fn atribuir_a_parametro_produz_erro_nesta_fase() {
    algum_erro(
        vec![
            func("f", vec![param("x", t_int())], vec![t_int()], vec![set("x", intl(1)), ret(vec![name("x")])]),
            main_with(vec![]),
        ],
        "parâmetro",
    );
}

#[test]
fn atribuicao_com_tipo_incompativel_produz_erro() {
    algum_erro(
        vec![main_raw(vec![local("x", Some(t_int()), intl(0)), set("x", text("oi")), ret(vec![name("x")])])],
        "atribuição incompatível",
    );
}

#[test]
fn mutabilidade_marca_somente_locais_reatribuidos() {
    let stats = corpo(vec![main_raw(vec![
        local("x", Some(t_int()), intl(0)),
        local("y", Some(t_int()), intl(1)),
        while_do(boolean(true), vec![set("x", intl(2))]),
        ret(vec![name("y")]),
    ])]);
    let TypedStat::Decl { name, mutable, .. } = &stats[0] else { panic!("esperava TypedStat::Decl") };
    assert_eq!(name, "x");
    assert!(*mutable, "x é reatribuída dentro do while → mutable");
    let TypedStat::Decl { name, mutable, .. } = &stats[1] else { panic!("esperava TypedStat::Decl") };
    assert_eq!(name, "y");
    assert!(!*mutable, "y nunca é reatribuída → imutável");
}

#[test]
fn shadowing_marca_somente_a_declaracao_interna() {
    let stats = corpo(vec![main_raw(vec![
        local("x", Some(t_int()), intl(1)),
        if_then(boolean(true), vec![local("x", Some(t_int()), intl(2)), set("x", intl(3))]),
        ret(vec![name("x")]),
    ])]);
    assert!(!decl_mutable(&stats[0]), "a externa nunca é atingida");
    let TypedStat::If { thens, .. } = &stats[1] else { panic!("esperava TypedStat::If") };
    let TypedStat::Block { stats: inner, .. } = &thens[0].block else { panic!("esperava bloco") };
    assert!(decl_mutable(&inner[0]), "a interna é a atingida pelo `x = 3`");
}

/// `local r = <e>` in `main`; gives the statements of the body.
fn valor_de(e: Exp) -> TypedExp {
    let stats = corpo(vec![main_with(vec![local("r", None, e)])]);
    let Some(TypedStat::Decl { value, .. }) = stats.into_iter().next() else {
        panic!("esperava TypedStat::Decl");
    };
    value
}

fn erros_de_exp(e: Exp) -> Vec<CheckError> {
    erros(vec![main_with(vec![local("r", None, e)])])
}

#[test]
fn aritmetica_int_int_resulta_integer() {
    for (l, op, r) in [(1, "+", 2), (5, "-", 1), (3, "*", 4), (7, "%", 3)] {
        let typed = valor_de(bin(intl(l), op, intl(r)));
        assert_eq!(typed.ty, Type::Integer, "tipo de `{l} {op} {r}`");
        assert!(matches!(typed.kind, TypedExpKind::Binop { .. }));
    }
    assert!(matches!(valor_de(bin(intl(1), "+", intl(2))).kind, TypedExpKind::Binop { op: BinOp::Add, .. }));
}

#[test]
fn aritmetica_com_um_lado_float_coage_para_float() {
    let casos = vec![
        bin(intl(1), "+", flt(2.0)),
        bin(flt(2.0), "*", intl(3)),
        bin(flt(1.5), "-", flt(0.5)),
        bin(flt(7.0), "%", intl(3)),
    ];
    for e in casos {
        assert_eq!(valor_de(e).ty, Type::Float);
    }
}

#[test]
fn divisao_e_potencia_resultam_sempre_float() {
    for e in [bin(intl(10), "/", intl(3)), bin(intl(2), "^", intl(10)), bin(flt(1.5), "/", flt(0.5))] {
        assert_eq!(valor_de(e).ty, Type::Float);
    }
    assert!(matches!(valor_de(bin(intl(2), "^", intl(10))).kind, TypedExpKind::Binop { op: BinOp::Pow, .. }));
}

#[test]
fn igualdade_de_tipos_comparaveis_resulta_boolean() {
    for e in [bin(intl(1), "==", flt(1.0)), bin(text("a"), "~=", text("b")), bin(boolean(true), "==", boolean(false))] {
        assert_eq!(valor_de(e).ty, Type::Boolean);
    }
    assert!(matches!(valor_de(bin(intl(1), "~=", intl(2))).kind, TypedExpKind::Binop { op: BinOp::Ne, .. }));
}

#[test]
fn ordem_aceita_numeros_com_coercao_e_strings() {
    for e in [bin(intl(1), "<", flt(2.0)), bin(intl(2), ">=", intl(2)), bin(text("a"), "<", text("b"))] {
        assert_eq!(valor_de(e).ty, Type::Boolean);
    }
}

#[test]
fn and_or_boolean_estrito() {
    let casos = vec![
        bin(boolean(true), "and", boolean(false)),
        bin(boolean(true), "or", boolean(false)),
        bin(bin(intl(1), "<", intl(2)), "and", bin(intl(3), "<", intl(4))),
    ];
    for e in casos {
        assert_eq!(valor_de(e).ty, Type::Boolean);
    }
    let errs = erros_de_exp(bin(intl(1), "and", intl(2)));
    assert_eq!(errs.iter().filter(|e| e.message.contains("precisa ser boolean")).count(), 2, "um erro por lado");
    let errs = erros_de_exp(bin(boolean(true), "or", intl(1)));
    assert!(errs.iter().any(|e| e.message.contains("precisa ser boolean")));
}

#[test]
fn menos_unario_preserva_o_tipo_do_operando() {
    assert_eq!(valor_de(un("-", intl(1))).ty, Type::Integer);
    assert_eq!(valor_de(un("-", flt(1.5))).ty, Type::Float);
    let typed = valor_de(un("-", un("-", intl(1))));
    assert_eq!(typed.ty, Type::Integer);
    assert!(matches!(typed.kind, TypedExpKind::Unop { op: UnOp::Neg, .. }));
}

#[test]
fn not_e_boolean_para_boolean() {
    assert_eq!(valor_de(un("not", boolean(true))).ty, Type::Boolean);
    assert_eq!(valor_de(un("not", un("not", boolean(false)))).ty, Type::Boolean);
}

#[test]
fn concat_coage_numeros_para_string() {
    let casos = vec![
        concat(vec![text("x: "), intl(42)]),
        concat(vec![text("y: "), flt(1.5)]),
        concat(vec![intl(1), text("!")]),
    ];
    for e in casos {
        let typed = valor_de(e);
        assert_eq!(typed.ty, Type::String);
        assert!(matches!(typed.kind, TypedExpKind::Concat(_)));
    }
}

#[test]
fn binop_relacional_serve_de_condicao_de_if_e_while() {
    aceita(vec![main_with(vec![
        if_then(bin(intl(1), "<", intl(2)), vec![ret(vec![intl(1)])]),
        while_do(bin(intl(1), ">", intl(2)), vec![]),
    ])]);
}

#[test]
fn operadores_fora_do_subconjunto_montados_a_mao_produzem_erro() {
    let errs = erros(vec![main_raw(vec![ret(vec![bin(intl(1), "<=>", intl(2)), un("++", intl(1))])])]);
    assert!(errs.iter().any(|e| e.message.contains("operador `<=>` não é suportado")));
    assert!(errs.iter().any(|e| e.message.contains("operador unário `++` não é suportado")));
}

#[test]
fn record_vazio_e_aceito_pelo_checker() {
    let typed = aceita(vec![record("Ponto", vec![]), main_with(vec![])]);
    assert!(typed.iter().any(|t| matches!(t, TypedTopLevel::Record { name, .. } if name == "Ponto")));
}

#[test]
fn array_literal_com_contexto_e_aceito() {
    let stats = corpo(vec![main_with(vec![local("t", Some(t_array(t_int())), list(vec![intl(1), intl(2), intl(3)]))])]);
    let value = decl_value(&stats[0]);
    assert_eq!(value.ty, arr(Type::Integer));
    assert!(matches!(value.kind, TypedExpKind::ArrayLit(ref v) if v.len() == 3));
}

#[test]
fn array_literal_sem_contexto_infere_do_primeiro_elemento() {
    assert_eq!(valor_de(list(vec![intl(1), intl(2), intl(3)])).ty, arr(Type::Integer));
}

#[test]
fn array_aninhado_e_aceito() {
    let typed = valor_de(list(vec![list(vec![intl(1), intl(2)]), list(vec![intl(3), intl(4)])]));
    assert_eq!(typed.ty, arr(arr(Type::Integer)));
}

#[test]
fn map_literal_e_aceito() {
    let typed = valor_de(map_of(vec![(text("a"), intl(1)), (text("b"), intl(2))]));
    assert_eq!(typed.ty, dict(Type::String, Type::Integer));
    assert!(matches!(typed.kind, TypedExpKind::MapLit(ref v) if v.len() == 2));
}

#[test]
fn map_com_chave_float_produz_erro() {
    let errs = erros(vec![main_with(vec![local("m", Some(t_map(t_float(), t_int())), list(vec![]))])]);
    assert!(errs.iter().any(|e| e.message.contains("chave de `map`") && e.message.contains("float")));
}

fn ponto() -> TopLevel {
    record("Ponto", vec![param("x", t_int()), param("y", t_int())])
}

#[test]
fn record_completo_e_aceito_com_contexto() {
    aceita(vec![ponto(), main_with(vec![local("p", Some(t_name("Ponto")), record_of(vec![("x", intl(1)), ("y", intl(2))]))])]);
}

fn vetor(n: &str, xs: Vec<i64>) -> Stat {
    local(n, Some(t_array(t_int())), list(xs.into_iter().map(intl).collect()))
}

#[test]
fn for_in_infere_o_tipo_do_elemento_do_array() {
    aceita(vec![main_with(vec![
        vetor("v", vec![1, 2]),
        local("s", Some(t_int()), intl(0)),
        for_in(vec![decl("x", None)], name("v"), vec![set("s", bin(name("s"), "+", name("x")))]),
    ])]);
}

#[test]
fn for_in_liga_chave_e_valor_com_os_tipos_do_map() {
    aceita(vec![main_with(vec![
        local("m", Some(t_map(t_string(), t_int())), map_of(vec![(text("a"), intl(1))])),
        local("s", Some(t_int()), intl(0)),
        local("t", Some(t_string()), text("")),
        for_in(
            vec![decl("k", None), decl("n", None)],
            name("m"),
            vec![set("s", bin(name("s"), "+", name("n"))), set("t", name("k"))],
        ),
    ])]);
}

#[test]
fn container_e_tipado_antes_de_a_variavel_entrar_em_escopo() {
    aceita(vec![main_with(vec![
        vetor("v", vec![1]),
        local("s", Some(t_int()), intl(0)),
        for_in(vec![decl("v", None)], name("v"), vec![set("s", bin(name("s"), "+", name("v")))]),
    ])]);
}

#[test]
fn break_e_continue_valem_dentro_do_for_in() {
    aceita(vec![main_with(vec![
        vetor("v", vec![1, 2]),
        for_in(vec![decl("x", None)], name("v"), vec![if_then(bin(name("x"), "==", intl(1)), vec![cont()]), brk()]),
    ])]);
}

#[test]
fn iterar_sobre_chamada_permite_mutar_outros_containers() {
    aceita(vec![
        func("nums", vec![], vec![t_array(t_int())], vec![ret(vec![list(vec![intl(1), intl(2)])])]),
        main_with(vec![
            vetor("v", vec![9]),
            for_in(vec![decl("x", None)], call("nums", vec![]), vec![assign(index_var(name("v"), intl(1)), name("x"))]),
        ]),
    ]);
}

#[test]
fn sombrear_o_nome_do_container_e_permitido() {
    aceita(vec![main_with(vec![
        vetor("v", vec![1, 2]),
        for_in(
            vec![decl("x", None)],
            name("v"),
            vec![local("v", Some(t_int()), name("x")), print(concat(vec![text("v: "), name("v")]))],
        ),
    ])]);
}

#[test]
fn mutar_outro_container_dentro_do_for_in_e_permitido() {
    aceita(vec![main_with(vec![
        vetor("v", vec![1, 2]),
        vetor("w", vec![0, 0]),
        for_in(vec![decl("x", None)], name("v"), vec![assign(index_var(name("w"), intl(1)), name("x"))]),
    ])]);
}

#[test]
fn record_incompleto_produz_erro() {
    algum_erro(
        vec![ponto(), main_with(vec![local("p", Some(t_name("Ponto")), record_of(vec![("x", intl(1))]))])],
        "falta o campo 'y'",
    );
}

fn ponto_x() -> TopLevel {
    record("Ponto", vec![param("x", t_int())])
}

#[test]
fn record_com_campo_extra_produz_erro() {
    algum_erro(
        vec![ponto_x(), main_with(vec![local("p", Some(t_name("Ponto")), record_of(vec![("x", intl(1)), ("z", intl(2))]))])],
        "campo 'z' não existe",
    );
}

#[test]
fn record_sem_contexto_produz_erro() {
    algum_erro(
        vec![ponto_x(), main_with(vec![local("p", None, record_of(vec![("x", intl(1))]))])],
        "inferir o tipo do record",
    );
}

#[test]
fn record_com_nome_reservado_do_rust_produz_erro() {
    algum_erro(vec![record("String", vec![param("x", t_int())]), main_with(vec![])], "nome reservado");
}

#[test]
fn record_recursivo_direto_produz_erro() {
    algum_erro(
        vec![record("No", vec![param("valor", t_int()), param("prox", t_name("No"))]), main_with(vec![])],
        "recursivo",
    );
}

#[test]
fn record_recursivo_indireto_produz_erro() {
    algum_erro(
        vec![record("A", vec![param("b", t_name("B"))]), record("B", vec![param("a", t_name("A"))]), main_with(vec![])],
        "recursivo",
    );
}

#[test]
fn record_com_array_do_proprio_tipo_e_aceito() {
    aceita(vec![
        record("No", vec![param("valor", t_int()), param("filhos", t_array(t_name("No")))]),
        main_with(vec![]),
    ]);
}

#[test]
fn record_contendo_campo_array_e_aceito() {
    aceita(vec![
        record("Lista", vec![param("itens", t_array(t_int()))]),
        main_with(vec![local(
            "l",
            Some(t_name("Lista")),
            record_of(vec![("itens", list(vec![intl(1), intl(2), intl(3)]))]),
        )]),
    ]);
}

#[test]
fn indexacao_de_array_e_aceita() {
    let typed = valor_de(index(list(vec![intl(1), intl(2), intl(3)]), intl(1)));
    assert_eq!(typed.ty, Type::Integer);
    assert!(matches!(typed.kind, TypedExpKind::Index { .. }));
}

#[test]
fn acesso_a_campo_de_record_e_aceito() {
    aceita(vec![
        ponto(),
        main_raw(vec![
            local("p", Some(t_name("Ponto")), record_of(vec![("x", intl(1)), ("y", intl(2))])),
            ret(vec![dot(name("p"), "x")]),
        ]),
    ]);
}

#[test]
fn acesso_a_campo_inexistente_produz_erro() {
    algum_erro(
        vec![
            ponto_x(),
            main_raw(vec![
                local("p", Some(t_name("Ponto")), record_of(vec![("x", intl(1))])),
                ret(vec![dot(name("p"), "z")]),
            ]),
        ],
        "não tem campo 'z'",
    );
}

#[test]
fn hash_de_array_e_de_string_resulta_integer() {
    for operand in [list(vec![intl(1), intl(2)]), text("abc")] {
        aceita(vec![main_raw(vec![ret(vec![un("#", operand)])])]);
    }
}

#[test]
fn hash_de_map_produz_erro() {
    algum_erro(
        vec![main_raw(vec![
            local("m", Some(t_map(t_string(), t_int())), list(vec![])),
            ret(vec![un("#", name("m"))]),
        ])],
        "`#` espera um array ou string",
    );
}

#[test]
fn atribuicao_a_indice_de_array_e_aceita() {
    aceita(vec![
        record("Caixa", vec![param("itens", t_array(t_int()))]),
        func(
            "altera",
            vec![param("c", t_name("Caixa"))],
            vec![t_int()],
            vec![assign(index_var(dot(name("c"), "itens"), intl(1)), intl(9)), ret(vec![intl(0)])],
        ),
        main_with(vec![]),
    ]);
}

#[test]
fn atribuicao_a_campo_de_record_e_aceita() {
    aceita(vec![
        ponto_x(),
        main_with(vec![
            local("p", Some(t_name("Ponto")), record_of(vec![("x", intl(1))])),
            assign(dot_var(name("p"), "x"), intl(2)),
        ]),
    ]);
}

#[test]
fn parametro_composto_aceita_atribuicao_indexada() {
    aceita(vec![
        func(
            "altera",
            vec![param("xs", t_array(t_int()))],
            vec![t_int()],
            vec![assign(index_var(name("xs"), intl(1)), intl(9)), ret(vec![intl(0)])],
        ),
        main_with(vec![]),
    ]);
}

#[test]
fn atribuicao_ao_parametro_composto_inteiro_produz_erro() {
    algum_erro(
        vec![
            func(
                "troca",
                vec![param("xs", t_array(t_int()))],
                vec![t_int()],
                vec![set("xs", list(vec![intl(1), intl(2)])), ret(vec![intl(0)])],
            ),
            main_with(vec![]),
        ],
        "parâmetro composto",
    );
}

#[test]
fn atribuicao_a_parametro_escalar_continua_rejeitada() {
    algum_erro(
        vec![
            func("f", vec![param("x", t_int())], vec![t_int()], vec![set("x", intl(1)), ret(vec![name("x")])]),
            main_with(vec![]),
        ],
        "parâmetro",
    );
}

#[test]
fn passar_mesma_variavel_composta_duas_vezes_produz_erro() {
    algum_erro(
        vec![
            func(
                "f",
                vec![param("xs", t_array(t_int())), param("ys", t_array(t_int()))],
                vec![t_int()],
                vec![ret(vec![intl(0)])],
            ),
            main_raw(vec![vetor("xs", vec![1, 2]), ret(vec![call("f", vec![name("xs"), name("xs")])])]),
        ],
        "empréstimo mutável duplicado",
    );
}

#[test]
fn passar_array_composto_a_funcao_marca_variavel_como_mutavel() {
    let stats = corpo(vec![
        main_with(vec![vetor("xs", vec![1, 2]), local("descartado", Some(t_int()), call("usa", vec![name("xs")]))]),
        func("usa", vec![param("xs", t_array(t_int()))], vec![t_int()], vec![ret(vec![intl(0)])]),
    ]);
    let TypedStat::Decl { name, mutable, .. } = &stats[0] else { panic!("esperava TypedStat::Decl") };
    assert_eq!(name, "xs");
    assert!(*mutable, "xs é passada por valor composto a `usa` → marcada mutável");
}

fn tipo_do_local(e: Exp) -> Type {
    valor_de(e).ty
}

#[test]
fn bitwise_entre_inteiros_resulta_integer() {
    for op in ["&", "|", "~", "<<", ">>"] {
        assert_eq!(tipo_do_local(bin(intl(1), op, intl(2))), Type::Integer, "`1 {op} 2`");
    }
    assert_eq!(tipo_do_local(un("~", intl(1))), Type::Integer);
}

#[test]
fn bitwise_com_float_produz_erro_em_portugues() {
    let casos = vec![
        bin(flt(1.5), "&", intl(2)),
        bin(intl(2), "|", flt(1.5)),
        bin(flt(1.5), "~", intl(2)),
        bin(flt(1.5), "<<", intl(2)),
        bin(intl(1), ">>", flt(1.5)),
    ];
    for e in casos {
        let errs = erros_de_exp(e);
        assert!(errs.iter().any(|e| e.message.contains("precisa ser integer")), "{errs:?}");
    }
}

#[test]
fn bitwise_not_unario_com_float_produz_erro() {
    let errs = erros_de_exp(un("~", flt(1.5)));
    assert!(errs.iter().any(|e| e.message.contains("`~` precisa ser integer")));
}

#[test]
fn bitwise_com_string_produz_erro() {
    let errs = erros_de_exp(bin(text("a"), "&", intl(1)));
    assert!(errs.iter().any(|e| e.message.contains("precisa ser integer")));
}

#[test]
fn divisao_inteira_segue_a_regra_aritmetica_dos_demais() {
    assert_eq!(tipo_do_local(bin(intl(7), "//", intl(2))), Type::Integer);
    for e in [bin(flt(7.0), "//", intl(2)), bin(intl(7), "//", flt(2.0)), bin(flt(7.0), "//", flt(2.0))] {
        assert_eq!(tipo_do_local(e), Type::Float);
    }
}

#[test]
fn divisao_inteira_com_string_produz_erro_de_operando_numerico() {
    let errs = erros_de_exp(bin(text("a"), "//", intl(2)));
    assert!(errs.iter().any(|e| e.message.contains("precisa ser numérico")));
}

#[test]
fn til_binario_e_unario_convivem_no_mesmo_programa() {
    let stats = corpo(vec![main_with(vec![
        local("x", None, bin(intl(5), "~", intl(3))),
        local("y", None, un("~", intl(0))),
    ])]);
    assert!(matches!(decl_value(&stats[0]).kind, TypedExpKind::Binop { op: BinOp::BXor, .. }));
    assert!(matches!(decl_value(&stats[1]).kind, TypedExpKind::Unop { op: UnOp::BNot, .. }));
}

fn corpo_do_laco(stat: &TypedStat) -> &Vec<TypedStat> {
    let block = match stat {
        TypedStat::While { block, .. } => block,
        TypedStat::For { block, .. } => block,
        TypedStat::Repeat { block, .. } => block,
        TypedStat::ForIn { block, .. } => block,
        _ => panic!("esperava um laço, obteve {stat:?}"),
    };
    let TypedStat::Block { stats, .. } = block.as_ref() else { panic!("esperava Block") };
    stats
}

#[test]
fn continue_dentro_de_laco_e_aceito() {
    let stats = corpo(vec![main_with(vec![
        while_do(boolean(true), vec![cont()]),
        for_num(decl("i", None), intl(1), intl(3), None, vec![cont()]),
    ])]);
    assert!(matches!(stats[0], TypedStat::While { .. }));
    assert!(matches!(corpo_do_laco(&stats[0])[0], TypedStat::Continue { .. }));
    assert!(matches!(stats[1], TypedStat::For { .. }));
    assert!(matches!(corpo_do_laco(&stats[1])[0], TypedStat::Continue { .. }));
}

#[test]
fn continue_fora_de_laco_e_erro_claro() {
    let errs = erros(vec![main_with(vec![cont()])]);
    assert!(errs.iter().any(|e| e.describe().contains("`continue` fora de um laço")), "{errs:?}");
}

#[test]
fn repeat_produz_typed_repeat_com_condicao_boolean() {
    let stats = corpo(vec![main_with(vec![
        local("n", Some(t_int()), intl(0)),
        repeat_until(vec![set("n", bin(name("n"), "+", intl(1)))], bin(name("n"), ">", intl(3))),
    ])]);
    let TypedStat::Repeat { condition, .. } = &stats[1] else {
        panic!("esperava TypedStat::Repeat, obteve {:?}", stats[1]);
    };
    assert_eq!(condition.ty, Type::Boolean);
    assert_eq!(corpo_do_laco(&stats[1]).len(), 1);
}

#[test]
fn until_enxerga_local_declarado_no_corpo() {
    let stats = corpo(vec![main_with(vec![
        local("n", Some(t_int()), intl(0)),
        repeat_until(
            vec![local("x", Some(t_int()), bin(name("n"), "*", intl(2))), set("n", bin(name("n"), "+", intl(1)))],
            bin(name("x"), ">", intl(10)),
        ),
    ])]);
    assert!(matches!(stats[1], TypedStat::Repeat { .. }), "{stats:?}");
}

#[test]
fn local_do_corpo_nao_vaza_para_depois_do_repeat() {
    let errs = erros(vec![main_raw(vec![
        repeat_until(vec![local("x", Some(t_int()), intl(1))], boolean(true)),
        ret(vec![name("x")]),
    ])]);
    assert!(errs.iter().any(|e| e.describe().contains("'x' não foi declarado")), "{errs:?}");
}

#[test]
fn until_com_condicao_nao_boolean_e_erro_claro() {
    let errs = erros(vec![main_with(vec![repeat_until(vec![], intl(1))])]);
    assert!(errs.iter().any(|e| e.describe().contains("condição do `until`")), "{errs:?}");
}

#[test]
fn break_e_continue_dentro_de_repeat_sao_aceitos() {
    let stats = corpo(vec![main_with(vec![
        local("n", Some(t_int()), intl(0)),
        repeat_until(
            vec![set("n", bin(name("n"), "+", intl(1))), if_then(bin(name("n"), "==", intl(1)), vec![cont()]), brk()],
            boolean(true),
        ),
    ])]);
    let corpo = corpo_do_laco(&stats[1]);
    assert!(matches!(corpo[2], TypedStat::Break { .. }), "{corpo:?}");
}

#[test]
fn continue_depois_do_laco_e_erro_claro() {
    let errs = erros(vec![main_with(vec![while_do(boolean(false), vec![]), cont()])]);
    assert!(errs.iter().any(|e| e.describe().contains("`continue` fora de um laço")), "{errs:?}");
}

/// `function divmod(a: integer, b: integer): integer, integer return a // b, a % b end`
fn divmod() -> TopLevel {
    func(
        "divmod",
        vec![param("a", t_int()), param("b", t_int())],
        vec![t_int(), t_int()],
        vec![ret(vec![bin(name("a"), "//", name("b")), bin(name("a"), "%", name("b"))])],
    )
}

/// Statements of the body of the function called `n`.
fn corpo_de_funcao(program: Vec<TopLevel>, n: &str) -> Vec<TypedStat> {
    let typed = aceita(program);
    let i = typed
        .iter()
        .position(|t| matches!(t, TypedTopLevel::Func { name, .. } if name == n))
        .unwrap_or_else(|| panic!("esperava a função '{n}' no programa tipado"));
    corpo_da(typed, i)
}

#[test]
fn funcao_com_dois_retornos_tipa() {
    let typed = aceita(vec![divmod(), main_with(vec![])]);
    let TypedTopLevel::Func { name, rettypes, .. } = &typed[0] else { panic!("esperava TypedTopLevel::Func") };
    assert_eq!(name, "divmod");
    assert_eq!(rettypes, &vec![Type::Integer, Type::Integer]);
}

#[test]
fn return_com_aridade_menor_produz_erro_claro() {
    let errs = erros(vec![
        func(
            "divmod",
            vec![param("a", t_int()), param("b", t_int())],
            vec![t_int(), t_int()],
            vec![ret(vec![bin(name("a"), "//", name("b"))])],
        ),
        main_with(vec![]),
    ]);
    assert!(errs.iter().any(|e| e.describe().contains("retornou 1 valor(es), mas a função espera 2")), "{errs:?}");
}

#[test]
fn return_com_aridade_maior_produz_erro_claro() {
    let errs = erros(vec![func("f", vec![], vec![t_int()], vec![ret(vec![intl(1), intl(2)])]), main_with(vec![])]);
    assert!(errs.iter().any(|e| e.describe().contains("retornou 2 valor(es), mas a função espera 1")), "{errs:?}");
}

#[test]
fn tipo_incompativel_no_segundo_retorno_produz_erro_claro() {
    let errs = erros(vec![
        func("f", vec![], vec![t_int(), t_string()], vec![ret(vec![intl(1), intl(2)])]),
        main_with(vec![]),
    ]);
    assert!(
        errs.iter().any(|e| e.describe().contains("retorno incompatível: esperado string, encontrado integer")),
        "{errs:?}"
    );
}

#[test]
fn chamada_de_dois_retornos_em_posicao_escalar_ajusta_para_o_primeiro() {
    let stats = corpo_de_funcao(
        vec![
            divmod(),
            main_raw(vec![local("q", Some(t_int()), call("divmod", vec![intl(7), intl(2)])), ret(vec![name("q")])]),
        ],
        "main",
    );
    let TypedStat::Decl { ty, value, .. } = &stats[0] else { panic!("esperava Decl, obteve {:?}", stats[0]) };
    assert_eq!(ty, &Type::Integer);
    assert_eq!(value.ty, Type::Integer);
    let TypedExpKind::Adjust(inner) = &value.kind else { panic!("esperava Adjust, obteve {:?}", value.kind) };
    assert!(matches!(&inner.kind, TypedExpKind::Call { .. }), "{:?}", inner.kind);
}

#[test]
fn chamada_de_retorno_unico_nao_ganha_ajuste() {
    let stats = corpo_de_funcao(
        vec![
            func("f", vec![], vec![t_int()], vec![ret(vec![intl(1)])]),
            main_raw(vec![local("x", Some(t_int()), call("f", vec![])), ret(vec![name("x")])]),
        ],
        "main",
    );
    let value = decl_value(&stats[0]);
    assert!(matches!(&value.kind, TypedExpKind::Call { .. }), "{:?}", value.kind);
}

#[test]
fn chamada_de_dois_retornos_como_comando_nao_ganha_ajuste() {
    let stats = corpo_de_funcao(vec![divmod(), main_with(vec![do_call(call("divmod", vec![intl(7), intl(2)]))])], "main");
    let TypedStat::Call { call, .. } = &stats[0] else { panic!("esperava Call, obteve {:?}", stats[0]) };
    assert!(matches!(&call.kind, TypedExpKind::Call { .. }), "{:?}", call.kind);
}

#[test]
fn ajuste_vale_dentro_de_expressao() {
    let stats = corpo_de_funcao(
        vec![divmod(), main_raw(vec![ret(vec![bin(call("divmod", vec![intl(7), intl(2)]), "+", intl(1))])])],
        "main",
    );
    let TypedStat::Return { exps, .. } = &stats[0] else { panic!("esperava Return") };
    let TypedExpKind::Binop { lhs, .. } = &exps[0].kind else { panic!("esperava Binop") };
    assert!(matches!(&lhs.kind, TypedExpKind::Adjust(_)), "{:?}", lhs.kind);
}

fn extra_de_f(index: usize) -> Exp {
    Exp::ExpExtra { loc: Loc { line: 1, col: 1 }, exp: Box::new(call("f", vec![])), index, ty: None }
}

fn checker_com_f() -> Checker {
    let mut checker = Checker::new();
    checker.st.add_symbol(
        "f",
        Type::Function { params: vec![], rettypes: vec![Type::Integer, Type::String] },
        SymbolKind::Global,
        Loc { line: 1, col: 1 },
    );
    checker
}

#[test]
fn exp_extra_tipa_pelo_enesimo_retorno() {
    let typed = aceita(vec![
        func("f", vec![], vec![t_int(), t_string()], vec![ret(vec![intl(1), text("a")])]),
        main_with(vec![]),
    ]);
    assert_eq!(typed.len(), 2);
    let mut checker = checker_com_f();
    let typed_exp = checker.check_exp(&extra_de_f(1), None).expect("esperava sucesso");
    assert_eq!(typed_exp.ty, Type::String);
    assert!(matches!(&typed_exp.kind, TypedExpKind::Extra { index: 1, .. }), "{:?}", typed_exp.kind);
}

#[test]
fn repassar_chamada_de_dois_retornos_no_return_produz_erro_claro() {
    let errs = erros(vec![
        divmod(),
        func(
            "repassa",
            vec![param("a", t_int()), param("b", t_int())],
            vec![t_int(), t_int()],
            vec![ret(vec![call("divmod", vec![name("a"), name("b")])])],
        ),
        main_with(vec![]),
    ]);
    assert!(errs.iter().any(|e| e.describe().contains("retornou 1 valor(es), mas a função espera 2")), "{errs:?}");
}

#[test]
fn exp_extra_com_indice_alem_da_assinatura_produz_erro_claro() {
    let mut checker = checker_com_f();
    assert!(checker.check_exp(&extra_de_f(5), None).is_none());
    assert!(
        checker.errors.iter().any(|e| e.describe().contains("valor(es) de retorno")),
        "{:?}",
        checker.errors
    );
}

#[test]
fn declaracao_multipla_desestrutura_chamada_de_dois_retornos() {
    let stats = corpo_de_funcao(
        vec![
            divmod(),
            main_raw(vec![
                local_multi(vec![decl("q", None), decl("r", None)], vec![call("divmod", vec![intl(7), intl(2)])]),
                ret(vec![bin(name("q"), "+", name("r"))]),
            ]),
        ],
        "main",
    );
    let TypedStat::DeclMulti { targets, values, .. } = &stats[0] else {
        panic!("esperava DeclMulti, obteve {:?}", stats[0]);
    };
    assert_eq!(targets.len(), 2);
    assert_eq!(targets[0].name, "q");
    assert_eq!(targets[0].ty, Type::Integer);
    assert_eq!(targets[1].name, "r");
    assert_eq!(targets[1].ty, Type::Integer);
    assert_ne!(targets[0].decl_id, targets[1].decl_id);
    let TypedMultiValues::Call(call) = values else { panic!("esperava desestruturação de chamada, obteve {values:?}") };
    assert!(matches!(call.kind, TypedExpKind::Call { .. }));
}

#[test]
fn declaracao_multipla_por_lista_de_valores() {
    let stats = corpo(vec![main_with(vec![local_multi(
        vec![decl("a", Some(t_int())), decl("b", Some(t_string()))],
        vec![intl(1), text("x")],
    )])]);
    let TypedStat::DeclMulti { targets, values, .. } = &stats[0] else {
        panic!("esperava DeclMulti, obteve {:?}", stats[0]);
    };
    assert_eq!(targets[0].ty, Type::Integer);
    assert_eq!(targets[1].ty, Type::String);
    let TypedMultiValues::List(exps) = values else { panic!("esperava lista de valores, obteve {values:?}") };
    assert_eq!(exps.len(), 2);
}

#[test]
fn declaracao_multipla_sem_anotacao_infere_cada_alvo_do_seu_valor() {
    let stats = corpo(vec![main_with(vec![local_multi(vec![decl("a", None), decl("b", None)], vec![intl(1), text("x")])])]);
    let TypedStat::DeclMulti { targets, .. } = &stats[0] else { panic!("esperava DeclMulti, obteve {:?}", stats[0]) };
    assert_eq!(targets[0].ty, Type::Integer);
    assert_eq!(targets[1].ty, Type::String);
}

#[test]
fn atribuicao_multipla_tipa_o_swap() {
    let stats = corpo(vec![main_with(vec![
        local("a", Some(t_int()), intl(1)),
        local("b", Some(t_int()), intl(2)),
        assign_multi(vec![var_name("a"), var_name("b")], vec![name("b"), name("a")]),
    ])]);
    let TypedStat::AssignMulti { targets, .. } = &stats[2] else { panic!("esperava AssignMulti, obteve {:?}", stats[2]) };
    assert_eq!(targets, &vec![TypedLValue::Name("a".to_string()), TypedLValue::Name("b".to_string())]);
}

#[test]
fn atribuicao_multipla_marca_todos_os_alvos_como_mutaveis() {
    let stats = corpo(vec![main_with(vec![
        local("a", Some(t_int()), intl(1)),
        local("b", Some(t_int()), intl(2)),
        local("c", Some(t_int()), intl(3)),
        assign_multi(vec![var_name("a"), var_name("b")], vec![name("b"), name("a")]),
    ])]);
    for (i, esperado) in [true, true, false].iter().enumerate() {
        let TypedStat::Decl { mutable, name, .. } = &stats[i] else { panic!("esperava Decl, obteve {:?}", stats[i]) };
        assert_eq!(mutable, esperado, "mutabilidade errada em '{name}'");
    }
}

#[test]
fn declaracao_multipla_marca_so_o_alvo_reatribuido() {
    let stats = corpo(vec![main_raw(vec![
        local_multi(vec![decl("a", Some(t_int())), decl("b", Some(t_int()))], vec![intl(1), intl(2)]),
        set("a", intl(3)),
        ret(vec![name("b")]),
    ])]);
    let TypedStat::DeclMulti { targets, .. } = &stats[0] else { panic!("esperava DeclMulti, obteve {:?}", stats[0]) };
    assert!(targets[0].mutable, "'a' é reatribuído e devia sair mutável");
    assert!(!targets[1].mutable, "'b' nunca é reatribuído");
}

#[test]
fn aridade_incompativel_com_a_chamada_produz_erro_claro() {
    let errs = erros(vec![
        divmod(),
        main_with(vec![local_multi(
            vec![decl("a", None), decl("b", None), decl("c", None)],
            vec![call("divmod", vec![intl(7), intl(2)])],
        )]),
    ]);
    assert!(errs.iter().any(|e| e.message.contains("3 alvo(s), mas a chamada produz 2 valor(es)")), "{errs:?}");
}

#[test]
fn aridade_incompativel_na_lista_produz_erro_claro() {
    let casos = vec![
        (
            vec![
                local("a", Some(t_int()), intl(1)),
                local("b", Some(t_int()), intl(2)),
                assign_multi(vec![var_name("a"), var_name("b")], vec![intl(1)]),
            ],
            "2 alvo(s), mas 1 valor(es)",
        ),
        (vec![local_multi(vec![decl("a", None), decl("b", None)], vec![intl(1), intl(2), intl(3)])], "2 alvo(s), mas 3 valor(es)"),
    ];
    for (body, trecho) in casos {
        let errs = erros(vec![main_with(body)]);
        assert!(errs.iter().any(|e| e.message.contains(trecho)), "esperava '{trecho}', obteve {errs:?}");
    }
}

#[test]
fn tipo_incompativel_em_alvo_da_declaracao_multipla_nomeia_a_posicao() {
    let errs = erros(vec![main_with(vec![local_multi(
        vec![decl("a", Some(t_int())), decl("b", Some(t_string()))],
        vec![intl(1), intl(2)],
    )])]);
    assert!(errs.iter().any(|e| e.message.contains("2º alvo") && e.message.contains("esperado string")), "{errs:?}");
}

#[test]
fn alvo_invalido_na_atribuicao_multipla_continua_rejeitado() {
    let errs = erros(vec![
        func("f", vec![], vec![t_int()], vec![ret(vec![intl(1)])]),
        main_with(vec![
            local("a", Some(t_int()), intl(1)),
            assign_multi(vec![var_name("a"), var_name("f")], vec![intl(1), intl(2)]),
        ]),
    ]);
    assert!(errs.iter().any(|e| e.message.contains("atribuir a uma função")), "{errs:?}");
}

#[test]
fn lado_direito_do_local_multiplo_enxerga_o_escopo_externo() {
    let stats = corpo(vec![main_with(vec![
        local("x", Some(t_int()), intl(1)),
        local("y", Some(t_string()), text("s")),
        local_multi(vec![decl("x", Some(t_string())), decl("y", Some(t_int()))], vec![name("y"), name("x")]),
    ])]);
    let TypedStat::DeclMulti { targets, .. } = &stats[2] else { panic!("esperava DeclMulti, obteve {:?}", stats[2]) };
    assert_eq!(targets[0].ty, Type::String);
    assert_eq!(targets[1].ty, Type::Integer);
}

#[test]
fn chamada_de_retorno_unico_nao_preenche_dois_alvos() {
    let errs = erros(vec![
        func("f", vec![], vec![t_int()], vec![ret(vec![intl(1)])]),
        main_with(vec![local_multi(vec![decl("a", None), decl("b", None)], vec![call("f", vec![])])]),
    ]);
    assert!(errs.iter().any(|e| e.message.contains("2 alvo(s), mas a chamada produz 1 valor(es)")), "{errs:?}");
}

fn opt_int(n: &str, e: Exp) -> Stat {
    local(n, Some(t_option(t_int())), e)
}

fn ne_nil(n: &str) -> Exp {
    bin(name(n), "~=", nil())
}

fn thens_de(stat: &TypedStat) -> &Vec<lib::checker::typed::TypedThen> {
    let TypedStat::If { thens, .. } = stat else { panic!("esperava If, obteve {stat:?}") };
    thens
}

fn erros_em_main(body: Vec<Stat>) -> Vec<CheckError> {
    erros(vec![main_with(body)])
}

fn pode_ser_nil(body: Vec<Stat>) {
    let errs = erros_em_main(body);
    assert!(errs.iter().any(|e| e.message.contains("pode ser nil")), "{errs:?}");
}

#[test]
fn t68_local_com_tipo_opcional_e_nil_tipa() {
    let stats = corpo(vec![main_with(vec![opt_int("x", nil())])]);
    let TypedStat::Decl { ty, value, .. } = &stats[0] else { panic!("esperava Decl, obteve {:?}", stats[0]) };
    assert_eq!(*ty, opt(Type::Integer));
    assert_eq!(value.kind, TypedExpKind::Nil);
    assert_eq!(*ty, value.ty);
}

#[test]
fn t68_valor_do_tipo_base_e_injetado_no_opcional() {
    let stats = corpo(vec![main_with(vec![opt_int("x", intl(10))])]);
    let TypedStat::Decl { ty, value, .. } = &stats[0] else { panic!("esperava Decl, obteve {:?}", stats[0]) };
    assert_eq!(*ty, opt(Type::Integer));
    let TypedExpKind::SomeOf(inner) = &value.kind else { panic!("esperava SomeOf, obteve {:?}", value.kind) };
    assert_eq!(inner.ty, Type::Integer);
    assert_eq!(inner.kind, TypedExpKind::Integer(10));
}

#[test]
fn t68_usar_opcional_direto_da_erro_claro_sobre_nil() {
    let errs = erros_em_main(vec![opt_int("x", intl(10)), local("y", Some(t_int()), bin(name("x"), "+", intl(1)))]);
    assert!(
        errs.iter().any(|e| e.message.contains("'x' é integer? e pode ser nil") && e.message.contains("if x ~= nil then")),
        "{errs:?}"
    );
}

#[test]
fn t68_opcional_como_condicao_da_erro_claro() {
    pode_ser_nil(vec![local("b", Some(t_option(t_bool())), boolean(true)), if_then(name("b"), vec![])]);
}

#[test]
fn t68_narrowing_dentro_do_if_da_o_tipo_base() {
    let stats = corpo(vec![main_with(vec![
        opt_int("x", intl(10)),
        if_then(ne_nil("x"), vec![local("y", Some(t_int()), bin(name("x"), "+", intl(1)))]),
    ])]);
    assert_eq!(thens_de(&stats[1])[0].narrowed, vec!["x".to_string()]);
}

#[test]
fn t68_narrowing_funciona_com_nil_do_lado_esquerdo() {
    let stats = corpo(vec![main_with(vec![
        opt_int("x", intl(10)),
        if_then(bin(nil(), "~=", name("x")), vec![local("y", Some(t_int()), name("x"))]),
    ])]);
    assert_eq!(thens_de(&stats[1])[0].narrowed, vec!["x".to_string()]);
}

#[test]
fn t68_narrowing_nao_vaza_para_depois_do_if() {
    let errs = erros_em_main(vec![
        opt_int("x", intl(10)),
        if_then(ne_nil("x"), vec![local("dentro", Some(t_int()), name("x"))]),
        local("fora", Some(t_int()), name("x")),
    ]);
    assert!(errs.iter().any(|e| e.message.contains("pode ser nil")), "{errs:?}");
    assert_eq!(errs.len(), 1, "{errs:?}");
}

#[test]
fn t68_narrowing_nao_vaza_para_o_else() {
    pode_ser_nil(vec![opt_int("x", intl(10)), if_else(ne_nil("x"), vec![], vec![local("y", Some(t_int()), name("x"))])]);
}

#[test]
fn t68_narrowing_nao_vaza_para_o_elseif_seguinte() {
    pode_ser_nil(vec![
        opt_int("x", intl(10)),
        if_chain(vec![(ne_nil("x"), vec![]), (bin(intl(1), "==", intl(1)), vec![local("y", Some(t_int()), name("x"))])], None),
    ]);
}

#[test]
fn t68_narrowing_atravessa_o_and_da_esquerda_para_a_direita() {
    let stats = corpo(vec![main_with(vec![
        opt_int("x", intl(10)),
        if_then(bin(ne_nil("x"), "and", bin(name("x"), ">", intl(0))), vec![local("y", Some(t_int()), name("x"))]),
    ])]);
    assert_eq!(thens_de(&stats[1])[0].narrowed, vec!["x".to_string()]);
}

#[test]
fn t68_and_estreita_os_dois_nomes_testados() {
    let stats = corpo(vec![main_with(vec![
        opt_int("x", intl(1)),
        opt_int("y", intl(2)),
        if_then(bin(ne_nil("x"), "and", ne_nil("y")), vec![local("s", Some(t_int()), bin(name("x"), "+", name("y")))]),
    ])]);
    assert_eq!(thens_de(&stats[2])[0].narrowed, vec!["x".to_string(), "y".to_string()]);
}

#[test]
fn t68_or_nao_estreita() {
    pode_ser_nil(vec![
        opt_int("x", intl(1)),
        if_then(bin(ne_nil("x"), "or", bin(intl(1), "==", intl(1))), vec![local("y", Some(t_int()), name("x"))]),
    ]);
}

#[test]
fn t68_atribuicao_dentro_do_ramo_estreitado_alcanca_a_declaracao() {
    let stats = corpo(vec![main_with(vec![opt_int("x", intl(1)), if_then(ne_nil("x"), vec![set("x", intl(2))])])]);
    assert!(decl_mutable(&stats[0]), "a declaração estreitada deveria sair `mut`");
}

#[test]
fn t68_comparar_opcional_com_nil_e_boolean() {
    let stats = corpo(vec![main_with(vec![opt_int("x", intl(1)), local("b", Some(t_bool()), ne_nil("x"))])]);
    assert_eq!(*decl_type(&stats[1]), Type::Boolean);
}

#[test]
fn t68_comparar_opcional_com_valor_pede_o_teste() {
    pode_ser_nil(vec![opt_int("x", intl(1)), local("b", Some(t_bool()), bin(name("x"), "==", intl(10)))]);
}

#[test]
fn t68_local_com_interrogacao_no_nome_infere_o_opcional() {
    let stats = corpo(vec![main_with(vec![local_multi(vec![decl_opt("x", None)], vec![intl(10)])])]);
    let TypedStat::Decl { ty, value, .. } = &stats[0] else { panic!("esperava Decl, obteve {:?}", stats[0]) };
    assert_eq!(*ty, opt(Type::Integer));
    assert!(matches!(value.kind, TypedExpKind::SomeOf(_)));
}

#[test]
fn t68_local_com_interrogacao_a_partir_de_nil_nao_infere() {
    let errs = erros_em_main(vec![local_multi(vec![decl_opt("x", None)], vec![nil()])]);
    assert!(errs.iter().any(|e| e.message.contains("não dá para inferir")), "{errs:?}");
}

#[test]
fn t68_tipo_opcional_nao_e_inferido_sem_pedir() {
    let errs = erros_em_main(vec![opt_int("x", intl(1)), local("y", None, name("x"))]);
    assert!(errs.iter().any(|e| e.message.contains("tipo opcional não é inferido")), "{errs:?}");
}

#[test]
fn t68_parametro_e_retorno_opcionais_tipam() {
    let typed = check_src(vec![
        func(
            "primeiro",
            vec![param("xs", t_array(t_int()))],
            vec![t_option(t_int())],
            vec![
                if_then(bin(un("#", name("xs")), "==", intl(0)), vec![ret(vec![nil()])]),
                ret(vec![index(name("xs"), intl(1))]),
            ],
        ),
        func(
            "usa",
            vec![param("x", t_option(t_int()))],
            vec![t_int()],
            vec![if_then(ne_nil("x"), vec![ret(vec![name("x")])]), ret(vec![intl(0)])],
        ),
        main_raw(vec![vetor("xs", vec![1, 2]), ret(vec![call("usa", vec![call("primeiro", vec![name("xs")])])])]),
    ]);
    assert!(typed.is_ok(), "{:?}", typed.unwrap_err());
}

#[test]
fn t68_injecao_vale_em_argumento_e_em_retorno() {
    let typed = check_src(vec![
        func("f", vec![param("x", t_option(t_int()))], vec![t_int()], vec![ret(vec![intl(0)])]),
        func("g", vec![], vec![t_option(t_int())], vec![ret(vec![intl(7)])]),
        main_raw(vec![ret(vec![call("f", vec![intl(10)])])]),
    ]);
    assert!(typed.is_ok(), "{:?}", typed.unwrap_err());
}

#[test]
fn t68_atribuicao_de_nil_e_de_valor_a_local_opcional() {
    let typed = check_src(vec![main_with(vec![opt_int("x", nil()), set("x", intl(10)), set("x", nil())])]);
    assert!(typed.is_ok(), "{:?}", typed.unwrap_err());
}

#[test]
fn t68_indexar_array_opcional_pede_o_teste() {
    pode_ser_nil(vec![
        local("xs", Some(t_option(t_array(t_int()))), nil()),
        local("y", Some(t_int()), index(name("xs"), intl(1))),
    ]);
}

#[test]
fn t68_concatenar_opcional_pede_o_teste() {
    pode_ser_nil(vec![
        local("s", Some(t_option(t_string())), text("a")),
        local("t", Some(t_string()), concat(vec![name("s"), text("b")])),
    ]);
}

#[test]
fn t68_nil_opcional_e_recusado() {
    let errs = erros_em_main(vec![local("x", Some(t_option(Ann::TypeNil { loc: at() })), nil())]);
    assert!(errs.iter().any(|e| e.message.contains("`nil?`")), "{errs:?}");
}

#[test]
fn t68_opcionais_de_bases_diferentes_nao_se_misturam() {
    let errs = erros_em_main(vec![opt_int("x", intl(1)), local("y", Some(t_option(t_float())), name("x"))]);
    assert!(errs.iter().any(|e| e.message.contains("incompatíveis")), "{errs:?}");
}

#[test]
fn t68_variavel_de_controle_do_for_nao_pode_ser_opcional() {
    let errs = erros_em_main(vec![for_num(decl_opt("i", None), intl(1), intl(3), None, vec![])]);
    assert!(errs.iter().any(|e| e.message.contains("variável de controle do `for` não pode ser opcional")), "{errs:?}");
}

#[test]
fn t68_interrogacao_no_nome_nao_vale_em_declaracao_multipla() {
    let errs = erros_em_main(vec![local_multi(vec![decl_opt("a", None), decl("b", None)], vec![intl(1), intl(2)])]);
    assert!(errs.iter().any(|e| e.message.contains("não vale em declaração múltipla")), "{errs:?}");
}

#[test]
fn t68_literal_composto_se_desambigua_pelo_tipo_base_do_opcional() {
    let stats = corpo(vec![main_with(vec![local("xs", Some(t_option(t_array(t_int()))), list(vec![intl(1), intl(2)]))])]);
    let TypedStat::Decl { ty, value, .. } = &stats[0] else { panic!("esperava Decl, obteve {:?}", stats[0]) };
    assert_eq!(*ty, opt(arr(Type::Integer)));
    let TypedExpKind::SomeOf(inner) = &value.kind else { panic!("esperava SomeOf, obteve {:?}", value.kind) };
    assert!(matches!(inner.kind, TypedExpKind::ArrayLit(_)));
}

#[test]
fn t68_record_map_e_string_opcionais_tipam_e_estreitam() {
    let typed = check_src(vec![
        ponto(),
        main_with(vec![
            local("p", Some(t_option(t_name("Ponto"))), record_of(vec![("x", intl(1)), ("y", intl(2))])),
            local("m", Some(t_option(t_map(t_string(), t_int()))), map_of(vec![(text("a"), intl(1))])),
            local("s", Some(t_option(t_string())), text("oi")),
            if_then(ne_nil("p"), vec![print(concat(vec![text("x="), dot(name("p"), "x")]))]),
            if_then(ne_nil("m"), vec![print(concat(vec![text("a="), index(name("m"), text("a"))]))]),
            if_then(ne_nil("s"), vec![print(name("s"))]),
        ]),
    ]);
    assert!(typed.is_ok(), "{:?}", typed.unwrap_err());
}

#[test]
fn t68_composto_estreitado_pode_ser_passado_a_funcao() {
    let typed = check_src(vec![
        func("soma", vec![param("xs", t_array(t_int()))], vec![t_int()], vec![ret(vec![un("#", name("xs"))])]),
        main_with(vec![
            local("xs", Some(t_option(t_array(t_int()))), list(vec![intl(1), intl(2)])),
            if_then(ne_nil("xs"), vec![print(concat(vec![text("n="), call("soma", vec![name("xs")])]))]),
        ]),
    ]);
    assert!(typed.is_ok(), "{:?}", typed.unwrap_err());
}

#[test]
fn t68_while_nao_estreita() {
    pode_ser_nil(vec![opt_int("x", intl(1)), while_do(ne_nil("x"), vec![local("y", Some(t_int()), name("x"))])]);
}

#[test]
fn t68_atribuir_nil_dentro_do_ramo_estreitado_e_recusado() {
    let errs = erros_em_main(vec![opt_int("x", intl(1)), if_then(ne_nil("x"), vec![set("x", nil())])]);
    assert!(errs.iter().any(|e| e.message.contains("atribuição incompatível para 'x'")), "{errs:?}");
}

#[test]
fn t68_sombreamento_dentro_do_ramo_estreitado() {
    let typed = check_src(vec![main_with(vec![
        opt_int("x", intl(1)),
        if_then(ne_nil("x"), vec![local("x", Some(t_string()), text("sombra")), print(name("x"))]),
        local("depois", Some(t_option(t_int())), name("x")),
    ])]);
    assert!(typed.is_ok(), "{:?}", typed.unwrap_err());
}

#[test]
fn t68_testar_nao_opcional_contra_nil_continua_erro() {
    let casos = vec![
        vec![local("x", Some(t_int()), intl(1)), if_then(ne_nil("x"), vec![])],
        vec![opt_int("x", intl(1)), if_then(ne_nil("x"), vec![if_then(ne_nil("x"), vec![])])],
    ];
    for body in casos {
        let errs = erros_em_main(body);
        assert!(errs.iter().any(|e| e.message.contains("não é possível comparar integer com nil")), "{errs:?}");
    }
}

#[test]
fn t68_escopo_do_ramo_estreitado_reporta_o_tipo_base() {
    let program = vec![main_with(vec![opt_int("x", intl(1)), if_then(ne_nil("x"), vec![local("y", Some(t_int()), name("x"))])])];
    let checked = check(&program).expect("fonte válida");
    assert!(
        checked.scopes.iter().any(|escopo| escopo.symbols.iter().any(|s| s.name == "x" && s.ty_name == "integer")),
        "nenhum escopo reportou `x: integer`"
    );
}

fn valor_do_decl(body: Vec<Stat>, i: usize) -> TypedExp {
    let stats = corpo(vec![main_with(body)]);
    let Some(TypedStat::Decl { value, .. }) = stats.into_iter().nth(i) else { panic!("esperava Decl") };
    value
}

#[test]
fn t70_cast_numerico_tipa_nos_dois_sentidos() {
    let v = valor_do_decl(vec![local("x", Some(t_float()), cast(intl(1), t_float()))], 0);
    assert!(v.ty.equals(&Type::Float));
    assert!(matches!(v.kind, TypedExpKind::Cast { kind: CastKind::IntToFloat, .. }));
    let v = valor_do_decl(vec![local("x", Some(t_int()), cast(flt(3.9), t_int()))], 0);
    assert!(v.ty.equals(&Type::Integer));
    assert!(matches!(v.kind, TypedExpKind::Cast { kind: CastKind::FloatToInt, .. }));
}

#[test]
fn t70_qualquer_tipo_sobe_para_value() {
    for e in [intl(1), text("a"), boolean(true), nil()] {
        let shown = format!("{e:?}");
        let v = valor_do_decl(vec![local("x", Some(t_value()), cast(e, t_value()))], 0);
        assert!(v.ty.equals(&Type::Value), "{shown}");
        assert!(matches!(v.kind, TypedExpKind::Cast { kind: CastKind::ToValue, .. }), "{shown}");
    }
}

#[test]
fn t70_value_desce_para_primitiva() {
    let value = valor_do_decl(
        vec![local("v", Some(t_value()), cast(intl(1), t_value())), local("x", Some(t_int()), cast(name("v"), t_int()))],
        1,
    );
    assert!(value.ty.equals(&Type::Integer));
    assert!(matches!(value.kind, TypedExpKind::Cast { kind: CastKind::FromValue, .. }));
}

#[test]
fn t70_cast_de_string_para_integer_e_erro_claro() {
    let errs = erros_em_main(vec![local("x", Some(t_int()), cast(text("a"), t_int()))]);
    let msg = errs[0].describe();
    assert!(msg.contains("não existe cast de string para integer"), "{msg}");
    assert!(msg.contains("não interpreta texto"), "{msg}");
}

#[test]
fn t70_cast_entre_compostos_e_erro() {
    let errs = erros_em_main(vec![
        vetor("a", vec![1]),
        local("b", Some(t_array(t_float())), cast(name("a"), t_array(t_float()))),
    ]);
    assert!(errs[0].describe().contains("não existe cast"), "{}", errs[0].describe());
}

#[test]
fn t70_value_nao_desce_para_composto() {
    let errs = erros_em_main(vec![
        local("v", Some(t_value()), cast(intl(1), t_value())),
        local("a", Some(t_array(t_int())), cast(name("v"), t_array(t_int()))),
    ]);
    assert!(errs[0].describe().contains("só desce para tipo primitivo"), "{}", errs[0].describe());
}

#[test]
fn t70_cast_de_identidade_nao_gera_no() {
    let v = valor_do_decl(vec![local("x", Some(t_int()), cast(intl(5), t_int()))], 0);
    assert!(v.ty.equals(&Type::Integer));
    assert!(matches!(v.kind, TypedExpKind::Integer(5)), "esperava o literal intacto, obteve {:?}", v.kind);
}

#[test]
fn t70_value_e_tipo_valido_em_anotacao_parametro_e_retorno() {
    check_src(vec![func("f", vec![param("v", t_value())], vec![t_value()], vec![ret(vec![name("v")])]), main_with(vec![])])
        .expect("`value` deveria ser tipo válido em parâmetro e retorno");
}

#[test]
fn t70_value_opcional_continua_recusado() {
    let errs = erros_em_main(vec![local("x", Some(t_option(t_value())), nil())]);
    assert!(errs[0].describe().contains("`value?` não faz sentido"), "{}", errs[0].describe());
}
