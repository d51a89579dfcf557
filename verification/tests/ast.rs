use lib::ast::{Args, Decl, Exp, Field, FieldName, Loc, Stat, TopLevel, Type, Var};
use lib::checker::toplevel::check;
use lib::checker::typed::TypedTopLevel;
use lib::types::Type as Checked;

#[test]
fn field_name_distingue_posicional_nome_e_chave() {
    let loc = Loc { line: 1, col: 1 };
    let posicional = Field { loc, name: FieldName::Positional, exp: Exp::ExpInteger { loc, value: 1 } };
    assert_eq!(posicional.name, FieldName::Positional);
    let nomeado = Field { loc, name: FieldName::Name("x".to_string()), exp: Exp::ExpInteger { loc, value: 1 } };
    assert_eq!(nomeado.name, FieldName::Name("x".to_string()));
    let chave = Field {
        loc,
        name: FieldName::Key(Box::new(Exp::ExpString { loc, value: "a".to_string() })),
        exp: Exp::ExpInteger { loc, value: 1 },
    };
    assert_eq!(chave.name, FieldName::Key(Box::new(Exp::ExpString { loc, value: "a".to_string() })));
    assert_ne!(posicional.name, nomeado.name);
    assert_ne!(nomeado.name, chave.name);
}

/// The program of the hello-world example: `print("Olá, mundo!")`, then `return 0`.
fn hello_world() -> Vec<TopLevel> {
    let loc = Loc { line: 1, col: 1 };
    let corpo = Stat::StatBlock {
        loc,
        stats: vec![
            Stat::StatCall {
                loc,
                callexp: Exp::ExpCall {
                    loc,
                    exp: Box::new(Exp::ExpVar { loc, var: Box::new(Var::VarName { loc, name: "print".to_string() }) }),
                    args: Args::ArgsFunc { loc, args: vec![Exp::ExpString { loc, value: "Olá, mundo!".to_string() }] },
                },
            },
            Stat::StatReturn { loc, exps: vec![Exp::ExpInteger { loc, value: 0 }] },
        ],
    };
    vec![TopLevel::TopLevelFunc {
        loc,
        islocal: false,
        name: "main".to_string(),
        params: vec![Decl {
            loc,
            name: "args".to_string(),
            ty: Some(Type::TypeArray { loc, subtype: Box::new(Type::TypeString { loc }) }),
            option: false,
        }],
        rettypes: vec![Type::TypeInteger { loc }],
        block: corpo,
    }]
}

#[test]
fn monta_ast_do_hello_world() {
    let programa = hello_world();
    assert_eq!(programa.len(), 1);
    match &programa[0] {
        TopLevel::TopLevelFunc { name, params, .. } => {
            assert_eq!(name, "main");
            assert_eq!(params.len(), 1);
        }
        _ => panic!("esperava TopLevelFunc"),
    }
}

#[test]
fn aceita_hello_titan() {
    let typed = match check(&hello_world()) {
        Ok(c) => c.program,
        Err(errs) => panic!(
            "esperava sucesso, obteve erros: {}",
            errs.iter().map(|e| e.describe()).collect::<Vec<_>>().join("; ")
        ),
    };
    assert_eq!(typed.len(), 1);
    let TypedTopLevel::Func { name, params, rettypes, .. } = &typed[0] else {
        panic!("esperava TypedTopLevel::Func, obteve {:?}", typed[0]);
    };
    assert_eq!(name, "main");
    assert_eq!(params.len(), 1);
    assert_eq!(params[0].1, Checked::Array { elem: Box::new(Checked::String) });
    assert_eq!(rettypes, &vec![Checked::Integer]);
}
