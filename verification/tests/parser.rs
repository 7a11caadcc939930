use firework_lang::parser::ast::AstNode;
use firework_lang::parser::{parse, parse_repl, ParseError};

#[test]
fn parses_a_simple_declaration() {
    let ast = parse("let main: i64 = 5").unwrap();
    assert_eq!(
        ast,
        vec![AstNode::Fn {
            name: String::from("main"),
            return_type: Box::new(AstNode::Type(String::from("i64"))),
            args: Box::new(AstNode::FnArgs(Vec::new())),
            value: Box::new(AstNode::Int(5)),
        }]
    );
}

#[test]
fn parses_parameters_and_calls() {
    let ast = parse("let f(x: i64): i64 = + x 1").unwrap();
    assert_eq!(
        ast,
        vec![AstNode::Fn {
            name: String::from("f"),
            return_type: Box::new(AstNode::Type(String::from("i64"))),
            args: Box::new(AstNode::FnArgs(vec![(
                AstNode::Identifier { name: String::from("x"), args: Vec::new() },
                AstNode::Type(String::from("i64")),
            )])),
            value: Box::new(AstNode::Identifier {
                name: String::from("+"),
                args: vec![
                    AstNode::Identifier { name: String::from("x"), args: Vec::new() },
                    AstNode::Int(1),
                ],
            }),
        }]
    );
}

#[test]
fn parses_literals() {
    let ast = parse("let main: str = \"hello\"").unwrap();
    match &ast[0] {
        AstNode::Fn { value, .. } => assert_eq!(**value, AstNode::Str(String::from("hello"))),
        other => panic!("unexpected node {:?}", other),
    }
    let ast = parse("let c: char = 'x'").unwrap();
    match &ast[0] {
        AstNode::Fn { value, .. } => assert_eq!(**value, AstNode::Char('x')),
        other => panic!("unexpected node {:?}", other),
    }
}

#[test]
fn parses_conditionals() {
    let ast = parse_repl("if true then 1 else 2").unwrap();
    assert_eq!(
        ast,
        vec![AstNode::IfElse {
            condition: Box::new(AstNode::Boolean(true)),
            stmt_true: Box::new(AstNode::Int(1)),
            stmt_false: Box::new(AstNode::Int(2)),
        }]
    );
}

#[test]
fn parses_module_declarations() {
    let ast = parse("module core\nimport prelude").unwrap();
    assert_eq!(
        ast,
        vec![
            AstNode::ModuleDeclaration(Box::new(AstNode::Module(String::from("core")))),
            AstNode::ModuleImport(Box::new(AstNode::Module(String::from("prelude")))),
        ]
    );
}

#[test]
fn syntax_errors_carry_line_and_column() {
    let err = parse("let main: i64 =\n  @").unwrap_err();
    assert_eq!(err, ParseError { line: 2, col: 3 });
}

#[test]
fn repl_rejects_trailing_tokens() {
    assert!(parse_repl("1 2").is_err());
}

#[test]
fn operators_are_ordinary_names() {
    let ast = parse_repl("== 1 2").unwrap();
    match &ast[0] {
        AstNode::Identifier { name, args } => {
            assert_eq!(name, "==");
            assert_eq!(args.len(), 2);
        }
        other => panic!("unexpected node {:?}", other),
    }
}
