use firework_lang::parser::ast::AstNode;
use firework_lang::repl::Repl;
use firework_lang::transpiler::transpile::Transpiler;

#[test]
fn transpiles_literals() {
    let t = Transpiler::new();
    assert_eq!(t.transpile_ast(vec![AstNode::Int(5)]), "5");
    assert_eq!(t.transpile_ast(vec![AstNode::Int(-5)]), "(-5)");
    assert_eq!(t.transpile_ast(vec![AstNode::Boolean(true)]), "True");
    assert_eq!(t.transpile_ast(vec![AstNode::Boolean(false)]), "False");
    assert_eq!(
        t.transpile_ast(vec![AstNode::Str(String::from("hi"))]),
        "\"hi\""
    );
    assert_eq!(t.transpile_ast(vec![AstNode::Char('x')]), "'x'");
}

#[test]
fn transpiles_conditionals() {
    let t = Transpiler::new();
    let node = AstNode::IfElse {
        condition: Box::new(AstNode::Boolean(true)),
        stmt_true: Box::new(AstNode::Int(1)),
        stmt_false: Box::new(AstNode::Int(2)),
    };
    assert_eq!(t.transpile_ast(vec![node]), "if True then 1 else 2");
}

#[test]
fn transpiles_function_declarations() {
    let t = Transpiler::new();
    let node = AstNode::Fn {
        name: String::from("f"),
        return_type: Box::new(AstNode::Type(String::from("i64"))),
        args: Box::new(AstNode::FnArgs(vec![(
            AstNode::Identifier { name: String::from("x"), args: Vec::new() },
            AstNode::Type(String::from("i64")),
        )])),
        value: Box::new(AstNode::Identifier { name: String::from("x"), args: Vec::new() }),
    };
    assert_eq!(t.transpile_ast(vec![node]), "f :: i64 -> i64\nf x  = x");
}

#[test]
fn repl_eval_round_trip() {
    assert_eq!(Repl::eval("+ 1 2", Transpiler::new()), "+ 1 2");
    assert_eq!(Repl::eval("@@nonsense@@", Transpiler::new()), "");
}
