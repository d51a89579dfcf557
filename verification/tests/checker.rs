use lib::ast::{Args, Decl, Exp, Field, FieldName, Loc, Stat, TopLevel, Type as Ann, Var};
use lib::checker::toplevel::{check, check_partial, imported_capabilities};
use lib::checker::typed::{BinOp, CheckError, TypedExp, TypedExpKind, TypedStat, TypedTopLevel, UnOp};
use lib::types::Type;

fn at() -> Loc {
    Loc { line: 2, col: 5 }
}

fn intl(v: i64) -> Exp {
    Exp::ExpInteger { loc: at(), value: v }
}

fn flt(v: f64) -> Exp {
    Exp::ExpFloat { loc: at(), bits: v.to_bits() }
}

fn text(v: &str) -> Exp {
    Exp::ExpString { loc: at(), value: v.to_string() }
}

fn boolean(v: bool) -> Exp {
    Exp::ExpBool { loc: at(), value: v }
}

fn nil() -> Exp {
    Exp::ExpNil { loc: at() }
}

fn bin(lhs: Exp, op: &str, rhs: Exp) -> Exp {
    Exp::ExpBinop { loc: at(), lhs: Box::new(lhs), op: op.to_string(), rhs: Box::new(rhs) }
}

fn un(op: &str, e: Exp) -> Exp {
    Exp::ExpUnop { loc: at(), op: op.to_string(), exp: Box::new(e) }
}

fn concat(exps: Vec<Exp>) -> Exp {
    Exp::ExpConcat { loc: at(), exps }
}

fn var_name(n: &str) -> Var {
    Var::VarName { loc: at(), name: n.to_string() }
}

fn name(n: &str) -> Exp {
    Exp::ExpVar { loc: at(), var: Box::new(var_name(n)) }
}

fn index_var(base: Exp, i: Exp) -> Var {
    Var::VarBracket { loc: at(), exp1: Box::new(base), exp2: Box::new(i) }
}

fn index(base: Exp, i: Exp) -> Exp {
    Exp::ExpVar { loc: at(), var: Box::new(index_var(base, i)) }
}

fn field(base: Exp, n: &str) -> Exp {
    Exp::ExpVar { loc: at(), var: Box::new(Var::VarDot { loc: at(), exp: Box::new(base), name: n.to_string() }) }
}

fn list(exps: Vec<Exp>) -> Exp {
    Exp::ExpInitList {
        loc: at(),
        fields: exps.into_iter().map(|e| Field { loc: at(), name: FieldName::Positional, exp: e }).collect(),
    }
}

fn map_of(pairs: Vec<(Exp, Exp)>) -> Exp {
    Exp::ExpInitList {
        loc: at(),
        fields: pairs
            .into_iter()
            .map(|(k, v)| Field { loc: at(), name: FieldName::Key(Box::new(k)), exp: v })
            .collect(),
    }
}

fn record_of(pairs: Vec<(&str, Exp)>) -> Exp {
    Exp::ExpInitList {
        loc: at(),
        fields: pairs
            .into_iter()
            .map(|(n, v)| Field { loc: at(), name: FieldName::Name(n.to_string()), exp: v })
            .collect(),
    }
}

fn call(f: &str, args: Vec<Exp>) -> Exp {
    Exp::ExpCall { loc: at(), exp: Box::new(name(f)), args: Args::ArgsFunc { loc: at(), args } }
}

fn t_int() -> Ann {
    Ann::TypeInteger { loc: at() }
}

fn t_float() -> Ann {
    Ann::TypeFloat { loc: at() }
}

fn t_string() -> Ann {
    Ann::TypeString { loc: at() }
}

fn t_array(t: Ann) -> Ann {
    Ann::TypeArray { loc: at(), subtype: Box::new(t) }
}

fn t_map(k: Ann, v: Ann) -> Ann {
    Ann::TypeMap { loc: at(), keystype: Box::new(k), valuestype: Box::new(v) }
}

fn t_option(t: Ann) -> Ann {
    Ann::TypeOption { loc: at(), basetype: Box::new(t) }
}

fn t_name(n: &str) -> Ann {
    Ann::TypeName { loc: at(), name: n.to_string() }
}

fn decl(n: &str, ty: Option<Ann>) -> Decl {
    Decl { loc: at(), name: n.to_string(), ty, option: false }
}

fn local(n: &str, ty: Option<Ann>, e: Exp) -> Stat {
    Stat::StatDecl { loc: at(), decls: vec![decl(n, ty)], exps: vec![e] }
}

fn assign(v: Var, e: Exp) -> Stat {
    Stat::StatAssign { loc: at(), vars: vec![v], exps: vec![e] }
}

fn block(stats: Vec<Stat>) -> Stat {
    Stat::StatBlock { loc: at(), stats }
}

fn for_in(decls: Vec<Decl>, e: Exp, body: Vec<Stat>) -> Stat {
    Stat::StatForIn { loc: at(), decls, exp: e, block: Box::new(block(body)) }
}

fn ret(exps: Vec<Exp>) -> Stat {
    Stat::StatReturn { loc: at(), exps }
}

fn func(n: &str, params: Vec<Decl>, rettypes: Vec<Ann>, body: Vec<Stat>) -> TopLevel {
    TopLevel::TopLevelFunc { loc: at(), islocal: false, name: n.to_string(), params, rettypes, block: block(body) }
}

/// `function main(args: {string}): integer <corpo> return 0 end`
fn main_with(mut body: Vec<Stat>) -> TopLevel {
    body.push(ret(vec![intl(0)]));
    func("main", vec![decl("args", Some(t_array(t_string())))], vec![t_int()], body)
}

fn erros_de(body: Vec<Stat>) -> Vec<CheckError> {
    check(&vec![main_with(body)]).unwrap_err()
}

fn mensagens(errs: &[CheckError]) -> String {
    errs.iter().map(|e| e.message.clone()).collect::<Vec<_>>().join("; ")
}

fn contem_erro(body: Vec<Stat>, trecho: &str) {
    let errs = erros_de(body);
    assert!(
        errs.iter().any(|e| e.message.contains(trecho)),
        "esperava um erro contendo {trecho:?}, obtive: {}",
        mensagens(&errs)
    );
}

fn aceita(program: Vec<TopLevel>) -> Vec<TypedTopLevel> {
    match check(&program) {
        Ok(checked) => checked.program,
        Err(errs) => panic!("esperava sucesso, obteve: {}", mensagens(&errs)),
    }
}

fn corpo_de(typed: &[TypedTopLevel]) -> &Vec<TypedStat> {
    let TypedTopLevel::Func { body, .. } = &typed[0] else {
        panic!("esperava TypedTopLevel::Func");
    };
    let TypedStat::Block { stats, .. } = body.as_ref() else {
        panic!("esperava TypedStat::Block como corpo");
    };
    stats
}

/// Checks `local r = <e>` and gives the typed value.
fn typed_value_of(e: Exp) -> TypedExp {
    let typed = aceita(vec![main_with(vec![local("r", None, e)])]);
    let stats = corpo_de(&typed);
    let TypedStat::Decl { value, .. } = &stats[0] else {
        panic!("esperava TypedStat::Decl");
    };
    TypedExp { loc: value.loc, ty: copy_type(&value.ty), kind: TypedExpKind::Nil }
}

fn kind_of(e: Exp) -> String {
    let typed = aceita(vec![main_with(vec![local("r", None, e)])]);
    let stats = corpo_de(&typed);
    let TypedStat::Decl { value, .. } = &stats[0] else {
        panic!("esperava TypedStat::Decl");
    };
    format!("{:?}", value.kind)
}

fn copy_type(t: &Type) -> Type {
    t.copy()
}

/// Checks `local r = <e>` expecting failure.
fn exp_errors_of(e: Exp) -> Vec<CheckError> {
    erros_de(vec![local("r", None, e)])
}

#[test]
fn aritmetica_com_operando_nao_numerico_produz_erro() {
    let errs = exp_errors_of(bin(intl(1), "+", text("a")));
    assert!(errs.iter().any(|e| e.message.contains("numérico")));
    let errs = exp_errors_of(bin(boolean(true), "+", boolean(false)));
    assert_eq!(errs.iter().filter(|e| e.message.contains("numérico")).count(), 2);
}

#[test]
fn igualdade_entre_tipos_diferentes_produz_erro() {
    let errs = exp_errors_of(bin(intl(1), "==", text("a")));
    assert!(errs.iter().any(|e| e.message.contains("não é possível comparar integer com string")));
}

#[test]
fn ordem_com_boolean_ou_tipos_misturados_produz_erro() {
    for (l, r, shown) in [(boolean(true), boolean(false), "true < false"), (text("a"), intl(1), "\"a\" < 1")] {
        let errs = exp_errors_of(bin(l, "<", r));
        assert!(
            errs.iter().any(|e| e.message.contains("número com número ou string com string")),
            "esperava erro de ordem para `{shown}`"
        );
    }
}

#[test]
fn unario_com_tipo_errado_produz_erro() {
    let errs = exp_errors_of(un("-", text("a")));
    assert!(errs.iter().any(|e| e.message.contains("numérico")));
    let errs = exp_errors_of(un("not", intl(1)));
    assert!(errs.iter().any(|e| e.message.contains("precisa ser boolean")));
}

#[test]
fn concat_com_boolean_ou_nil_produz_erro() {
    for (exps, shown) in [(vec![boolean(true), text("x")], "true .. \"x\""), (vec![text("x"), nil()], "\"x\" .. nil")] {
        let errs = exp_errors_of(concat(exps));
        assert!(
            errs.iter().any(|e| e.message.contains("operando de `..`")),
            "esperava erro de concat para `{shown}`"
        );
    }
}

#[test]
fn init_list_vazio_sem_contexto_produz_erro() {
    let errs = exp_errors_of(list(vec![]));
    assert!(errs.iter().any(|e| e.message.contains("inferir o tipo de `{}` vazio")));
}

#[test]
fn variavel_do_for_in_nao_vaza_para_fora_do_laco() {
    contem_erro(
        vec![
            local("v", Some(t_array(t_int())), list(vec![intl(1)])),
            for_in(vec![decl("x", None)], name("v"), vec![]),
            local("y", Some(t_int()), name("x")),
        ],
        "'x' não foi declarado",
    );
}

#[test]
fn for_in_sobre_array_com_dois_nomes_produz_erro() {
    contem_erro(
        vec![
            local("v", Some(t_array(t_int())), list(vec![intl(1)])),
            for_in(vec![decl("k", None), decl("x", None)], name("v"), vec![]),
        ],
        "liga um nome (o elemento)",
    );
}

#[test]
fn for_in_sobre_map_com_um_nome_produz_erro() {
    contem_erro(
        vec![
            local("m", Some(t_map(t_string(), t_int())), map_of(vec![(text("a"), intl(1))])),
            for_in(vec![decl("x", None)], name("m"), vec![]),
        ],
        "liga dois nomes (chave e valor)",
    );
}

#[test]
fn for_in_sobre_escalar_produz_erro() {
    contem_erro(
        vec![local("n", Some(t_int()), intl(3)), for_in(vec![decl("x", None)], name("n"), vec![])],
        "itera sobre array (`{T}`) ou map (`{K: V}`), encontrado integer",
    );
}

#[test]
fn anotacao_divergente_na_variavel_do_for_in_produz_erro() {
    contem_erro(
        vec![
            local("v", Some(t_array(t_int())), list(vec![intl(1)])),
            for_in(vec![decl("x", Some(t_float()))], name("v"), vec![]),
        ],
        "o elemento iterado tem tipo integer, mas 'x' foi declarado como float",
    );
}

#[test]
fn nomes_repetidos_no_for_in_produzem_erro() {
    contem_erro(
        vec![
            local("m", Some(t_map(t_string(), t_int())), map_of(vec![(text("a"), intl(1))])),
            for_in(vec![decl("k", None), decl("k", None)], name("m"), vec![]),
        ],
        "'k' aparece duas vezes nas variáveis do `for`-in",
    );
}

#[test]
fn variavel_opcional_no_for_in_produz_erro() {
    let mut x = decl("x", None);
    x.option = true;
    contem_erro(
        vec![local("v", Some(t_array(t_int())), list(vec![intl(1)])), for_in(vec![x], name("v"), vec![])],
        "não pode ser opcional",
    );
}

#[test]
fn for_in_sobre_opcional_produz_erro_que_ensina_o_teste() {
    let errs = erros_de(vec![
        local("v", Some(t_option(t_array(t_int()))), nil()),
        for_in(vec![decl("x", None)], name("v"), vec![]),
    ]);
    assert!(!errs.is_empty(), "esperava erro ao iterar sobre opcional");
    assert!(errs.iter().any(|e| e.message.contains("'v' é {integer}? e pode ser nil")));
}

#[test]
fn escrever_no_container_sombreado_e_recusado_conservadoramente() {
    contem_erro(
        vec![
            local("v", Some(t_array(t_int())), list(vec![intl(1), intl(2)])),
            for_in(
                vec![decl("x", None)],
                name("v"),
                vec![
                    local("v", Some(t_array(t_int())), list(vec![intl(9)])),
                    assign(index_var(name("v"), intl(1)), name("x")),
                ],
            ),
        ],
        "não é possível modificar 'v' dentro do `for`-in",
    );
}

#[test]
fn indice_de_array_nao_integer_produz_erro() {
    let errs = exp_errors_of(index(list(vec![intl(1), intl(2), intl(3)]), text("a")));
    assert!(errs.iter().any(|e| e.message.contains("índice incompatível")));
}

// ---- scenarios and laws beyond the list above ----------------------------

#[test]
fn aritmetica_int_int_resulta_integer_e_float_promove() {
    for op in ["+", "-", "*", "%", "//"] {
        assert_eq!(typed_value_of(bin(intl(7), op, intl(3))).ty, Type::Integer, "tipo de `7 {op} 3`");
        assert_eq!(typed_value_of(bin(intl(7), op, flt(3.0))).ty, Type::Float, "tipo de `7 {op} 3.0`");
    }
    assert!(kind_of(bin(intl(1), "+", intl(2))).starts_with("Binop { op: Add"));
}

fn divisao_e_potencia_resultam_sempre_float() {
    assert_eq!(typed_value_of(bin(intl(10), "/", intl(3))).ty, Type::Float);
    assert_eq!(typed_value_of(bin(intl(2), "^", intl(10))).ty, Type::Float);
    assert!(kind_of(bin(intl(2), "^", intl(10))).starts_with("Binop { op: Pow"));
}

#[test]
fn igualdade_e_ordem_resultam_boolean() {
    assert_eq!(typed_value_of(bin(intl(1), "==", flt(1.0))).ty, Type::Boolean);
    assert_eq!(typed_value_of(bin(text("a"), "~=", text("b"))).ty, Type::Boolean);
    assert_eq!(typed_value_of(bin(boolean(true), "==", boolean(false))).ty, Type::Boolean);
    assert_eq!(typed_value_of(bin(text("a"), "<", text("b"))).ty, Type::Boolean);
    assert_eq!(typed_value_of(bin(intl(2), ">=", flt(2.0))).ty, Type::Boolean);
}

#[test]
fn and_or_sao_boolean_estritos_com_um_erro_por_lado() {
    assert_eq!(typed_value_of(bin(boolean(true), "or", boolean(false))).ty, Type::Boolean);
    let errs = exp_errors_of(bin(intl(1), "and", intl(2)));
    assert_eq!(errs.iter().filter(|e| e.message.contains("precisa ser boolean")).count(), 2);
}

#[test]
fn bitwise_exige_integer_e_nao_aceita_float() {
    assert_eq!(typed_value_of(bin(intl(6), "&", intl(3))).ty, Type::Integer);
    assert_eq!(typed_value_of(bin(intl(1), "<<", intl(3))).ty, Type::Integer);
    assert_eq!(typed_value_of(un("~", intl(3))).ty, Type::Integer);
    let errs = exp_errors_of(bin(flt(1.5), "&", intl(2)));
    assert!(errs.iter().any(|e| e.message == "operando de `&` precisa ser integer, encontrado float."));
}

#[test]
fn unarios_preservam_ou_fixam_o_tipo() {
    assert_eq!(typed_value_of(un("-", intl(1))).ty, Type::Integer);
    assert_eq!(typed_value_of(un("-", flt(1.5))).ty, Type::Float);
    assert_eq!(typed_value_of(un("not", un("not", boolean(false)))).ty, Type::Boolean);
    assert_eq!(typed_value_of(un("#", text("abc"))).ty, Type::Integer);
    assert!(kind_of(un("-", un("-", intl(1)))).starts_with("Unop { op: Neg"));
    let errs = exp_errors_of(un("!", intl(1)));
    assert!(errs.iter().any(|e| e.message == "operador unário `!` não é suportado nesta fase."));
}

#[test]
fn operador_binario_desconhecido_e_erro() {
    let errs = exp_errors_of(bin(intl(1), "<>", intl(2)));
    assert_eq!(mensagens(&errs), "operador `<>` não é suportado nesta fase.");
}

fn concat_coage_numeros_para_string() {
    let typed = typed_value_of(concat(vec![text("x: "), intl(42), flt(1.5)]));
    assert_eq!(typed.ty, Type::String);
    assert!(kind_of(concat(vec![intl(1), text("!")])).starts_with("Concat("));
}

#[test]
fn literais_guardam_o_valor() {
    assert_eq!(kind_of(intl(42)), "Integer(42)");
    assert_eq!(kind_of(boolean(true)), "Bool(true)");
    assert_eq!(kind_of(flt(1.5)), format!("Float({})", 1.5f64.to_bits()));
    assert_eq!(kind_of(text("oi")), "String(\"oi\")");
}

#[test]
fn cast_converte_numeros_e_sobe_para_value() {
    let to = |e: Exp, t: Ann| Exp::ExpCast { loc: at(), exp: Box::new(e), target: t };
    assert_eq!(typed_value_of(to(intl(3), t_float())).ty, Type::Float);
    assert!(kind_of(to(flt(3.9), t_int())).starts_with("Cast { kind: FloatToInt"));
    assert!(kind_of(to(intl(3), Ann::TypeValue { loc: at() })).starts_with("Cast { kind: ToValue"));
    assert_eq!(kind_of(to(intl(3), t_int())), "Integer(3)");
    let errs = exp_errors_of(to(text("3"), t_int()));
    assert!(errs.iter().any(|e| e.message.starts_with("não existe cast de string para integer")));
}

#[test]
fn array_e_map_literais_tipam_pelo_primeiro_elemento() {
    assert_eq!(
        typed_value_of(list(vec![intl(1), intl(2)])).ty,
        Type::Array { elem: Box::new(Type::Integer) }
    );
    assert_eq!(
        typed_value_of(map_of(vec![(text("a"), flt(1.0))])).ty,
        Type::Dict { keys: Box::new(Type::String), values: Box::new(Type::Float) }
    );
    let errs = exp_errors_of(list(vec![intl(1), text("a")]));
    assert!(errs.iter().any(|e| e.message == "elemento do array incompatível: esperado integer, encontrado string."));
}

fn indexacao_de_array_e_aceita() {
    let typed = typed_value_of(index(list(vec![intl(1), intl(2), intl(3)]), intl(1)));
    assert_eq!(typed.ty, Type::Integer);
}

fn ponto() -> TopLevel {
    TopLevel::TopLevelRecord {
        loc: at(),
        name: "Ponto".to_string(),
        fields: vec![decl("x", Some(t_int())), decl("y", Some(t_int()))],
    }
}

#[test]
fn record_e_construido_e_lido_pelo_campo() {
    let typed = aceita(vec![
        ponto(),
        func(
            "main",
            vec![decl("args", Some(t_array(t_string())))],
            vec![t_int()],
            vec![
                local("p", Some(t_name("Ponto")), record_of(vec![("y", intl(2)), ("x", intl(1))])),
                ret(vec![field(name("p"), "x")]),
            ],
        ),
    ]);
    assert!(matches!(&typed[0], TypedTopLevel::Record { name, .. } if name == "Ponto"));
    let TypedTopLevel::Func { body, .. } = &typed[1] else { panic!("esperava a função") };
    let TypedStat::Block { stats, .. } = body.as_ref() else { panic!("esperava bloco") };
    let TypedStat::Decl { value, .. } = &stats[0] else { panic!("esperava Decl") };
    let TypedExpKind::RecordLit { fields, .. } = &value.kind else { panic!("esperava RecordLit") };
    let names: Vec<&str> = fields.iter().map(|(n, _)| n.as_str()).collect();
    assert_eq!(names, vec!["x", "y"], "campos na ordem da declaração");
}

#[test]
fn construtor_de_record_reporta_campo_faltando_e_desconhecido() {
    let program = vec![
        ponto(),
        main_with(vec![local("p", Some(t_name("Ponto")), record_of(vec![("x", intl(1)), ("z", intl(2))]))]),
    ];
    let errs = check(&program).unwrap_err();
    let all = mensagens(&errs);
    assert!(all.contains("campo 'z' não existe no record 'Ponto'."), "{all}");
    assert!(all.contains("falta o campo 'y' no construtor de 'Ponto'."), "{all}");
}

#[test]
fn programa_sem_main_e_recusado() {
    let program = vec![func("f", vec![], vec![t_int()], vec![ret(vec![intl(1)])])];
    let errs = check(&program).unwrap_err();
    assert_eq!(
        mensagens(&errs),
        "função 'main' precisa ter a assinatura main(args: {string}): integer."
    );
    assert_eq!(errs[0].loc, Loc { line: 1, col: 1 });
}

#[test]
fn programa_aceito_tem_cada_funcao_tipada() {
    let program = vec![
        func("dobro", vec![decl("n", Some(t_int()))], vec![t_int()], vec![ret(vec![bin(name("n"), "*", intl(2))])]),
        main_with(vec![Stat::StatCall { loc: at(), callexp: call("print", vec![concat(vec![text("x"), call("dobro", vec![intl(2)])])]) }]),
    ];
    let typed = aceita(program);
    let names: Vec<String> = typed
        .iter()
        .map(|t| match t {
            TypedTopLevel::Func { name, .. } => name.clone(),
            _ => String::new(),
        })
        .collect();
    assert_eq!(names, vec!["dobro".to_string(), "main".to_string()]);
}

fn chamada_antes_da_declaracao_e_permitida() {
    aceita(vec![
        main_with(vec![local("r", Some(t_int()), call("depois", vec![]))]),
        func("depois", vec![], vec![t_int()], vec![ret(vec![intl(1)])]),
    ]);
}

#[test]
fn erros_de_chamada_citam_a_funcao() {
    let errs = erros_de(vec![Stat::StatCall { loc: at(), callexp: call("nada", vec![]) }]);
    assert_eq!(mensagens(&errs), "função 'nada' não foi declarada.");
    let errs = erros_de(vec![Stat::StatCall { loc: at(), callexp: call("print", vec![intl(1)]) }]);
    assert!(mensagens(&errs).contains("argumento incompatível em chamada de 'print': esperado string, encontrado integer."));
    let errs = erros_de(vec![Stat::StatCall { loc: at(), callexp: call("print", vec![]) }]);
    assert_eq!(mensagens(&errs), "'print' espera 1 argumento(s), mas recebeu 0.");
}

fn mutabilidade_marca_somente_locais_reatribuidos() {
    let typed = aceita(vec![main_with(vec![
        local("a", Some(t_int()), intl(1)),
        local("b", Some(t_int()), intl(2)),
        assign(var_name("a"), intl(3)),
    ])]);
    let stats = corpo_de(&typed);
    let TypedStat::Decl { mutable: a_mut, .. } = &stats[0] else { panic!("Decl a") };
    let TypedStat::Decl { mutable: b_mut, .. } = &stats[1] else { panic!("Decl b") };
    assert!(*a_mut);
    assert!(!*b_mut);
}

#[test]
fn break_fora_de_laco_e_erro() {
    contem_erro(vec![Stat::StatBreak { loc: at() }], "`break` fora de um laço");
    contem_erro(vec![Stat::StatContinue { loc: at() }], "`continue` fora de um laço");
}

#[test]
fn for_in_sobre_array_liga_o_elemento() {
    aceita(vec![main_with(vec![
        local("v", Some(t_array(t_int())), list(vec![intl(1), intl(2)])),
        local("s", Some(t_int()), intl(0)),
        for_in(vec![decl("x", None)], name("v"), vec![assign(var_name("s"), bin(name("s"), "+", name("x")))]),
    ])]);
}

#[test]
fn estreitamento_de_opcional_no_if() {
    let then = lib::ast::Then {
        loc: at(),
        condition: bin(name("x"), "~=", nil()),
        block: block(vec![local("y", Some(t_int()), bin(name("x"), "+", intl(1)))]),
    };
    aceita(vec![main_with(vec![
        local("x", Some(t_option(t_int())), intl(10)),
        Stat::StatIf { loc: at(), thens: vec![then], elsestat: None },
    ])]);
    contem_erro(
        vec![local("x", Some(t_option(t_int())), intl(10)), local("y", Some(t_int()), bin(name("x"), "+", intl(1)))],
        "'x' é integer? e pode ser nil",
    );
}

#[test]
fn import_inexistente_lista_os_disponiveis() {
    let program = vec![
        TopLevel::TopLevelImport { loc: at(), localname: "foo".to_string(), modname: "foo".to_string() },
        main_with(vec![]),
    ];
    let errs = check(&program).unwrap_err();
    assert_eq!(mensagens(&errs), "capability 'foo' não existe; disponíveis: data, texto.");
}

#[test]
fn imported_capabilities_lista_cada_modulo_uma_vez() {
    let program = vec![
        TopLevel::TopLevelImport { loc: at(), localname: "data".to_string(), modname: "data".to_string() },
        TopLevel::TopLevelImport { loc: at(), localname: "d".to_string(), modname: "data".to_string() },
        TopLevel::TopLevelImport { loc: at(), localname: "x".to_string(), modname: "nada".to_string() },
        TopLevel::TopLevelImport { loc: at(), localname: "texto".to_string(), modname: "texto".to_string() },
    ];
    let names: Vec<&str> = imported_capabilities(&program).iter().map(|c| c.titan_name).collect();
    assert_eq!(names, vec!["data", "texto"]);
}

#[test]
fn metodo_sobre_opaco_tipa_float() {
    let csv = Exp::ExpCall {
        loc: at(),
        exp: Box::new(field(name("data"), "read_csv")),
        args: Args::ArgsFunc { loc: at(), args: vec![text("a.csv")] },
    };
    let soma = Exp::ExpCall {
        loc: at(),
        exp: Box::new(name("df")),
        args: Args::ArgsMethod { loc: at(), method: "soma".to_string(), args: vec![text("col")] },
    };
    let typed = aceita(vec![
        TopLevel::TopLevelImport { loc: at(), localname: "data".to_string(), modname: "data".to_string() },
        main_with(vec![local("df", None, csv), local("s", None, soma)]),
    ]);
    let stats = corpo_de(&typed);
    let TypedStat::Decl { ty, .. } = &stats[0] else { panic!("Decl df") };
    assert_eq!(lib::checker::names::type_name_of(ty), "data.DataFrame");
    let TypedStat::Decl { ty, .. } = &stats[1] else { panic!("Decl s") };
    assert_eq!(*ty, Type::Float);
}

#[test]
fn foreign_function_com_array_na_fronteira_da_erro_claro() {
    let program = vec![
        TopLevel::TopLevelForeignFunc {
            loc: at(),
            name: "soma".to_string(),
            params: vec![decl("xs", Some(t_array(t_int())))],
            rettypes: vec![t_int()],
        },
        main_with(vec![]),
    ];
    let errs = check(&program).unwrap_err();
    assert!(mensagens(&errs).contains("o parâmetro 'xs' de `foreign function soma` é {integer}, que não atravessa a fronteira de FFI"));
}

#[test]
fn check_partial_devolve_o_que_tipou_mesmo_com_erro() {
    let program = vec![
        func("f", vec![], vec![t_int()], vec![ret(vec![intl(1)])]),
        func("g", vec![], vec![t_int()], vec![ret(vec![text("x")])]),
    ];
    assert!(check(&program).is_err());
    let partial = check_partial(&program);
    assert_eq!(partial.program.len(), 1);
    assert!(matches!(&partial.program[0], TypedTopLevel::Func { name, .. } if name == "f"));
    assert!(!partial.scopes.is_empty());
}

#[test]
fn unop_e_binop_reconhecem_as_grafias() {
    assert_eq!(UnOp::from_source("#"), Some(UnOp::Len));
    assert_eq!(BinOp::from_source("~"), Some(BinOp::BXor));
    assert_eq!(BinOp::from_source("//"), Some(BinOp::IDiv));
    assert_eq!(BinOp::from_source("!="), None);
}
