use firework_lang::codegen::{CodeGen, CompileError};
use firework_lang::eval::RuntimeVal;
use firework_lang::parser::parse;

fn run_source(src: &str) -> Result<RuntimeVal, CompileError> {
    let ast = parse(src).expect("source should parse");
    let mut cg = CodeGen::new();
    cg.compile(ast, Vec::new())?;
    cg.call_main(10_000)
}

#[test]
fn end_to_end_addition() {
    // the end-to-end scenario: `let main: i64 = + 2 3` evaluates to 5
    let r = run_source("let main: i64 = + 2 3");
    assert_eq!(r, Ok(RuntimeVal::I64(5)));
}

#[test]
fn literal_round_trip_zero() {
    assert_eq!(run_source("let main: i64 = 0"), Ok(RuntimeVal::I64(0)));
}

#[test]
fn literal_round_trip_negative() {
    assert_eq!(run_source("let main: i64 = -7"), Ok(RuntimeVal::I64(-7)));
}

#[test]
fn literal_round_trip_boundaries() {
    assert_eq!(
        run_source("let main: i64 = 9223372036854775807"),
        Ok(RuntimeVal::I64(i64::MAX))
    );
    assert_eq!(
        run_source("let main: i64 = -9223372036854775808"),
        Ok(RuntimeVal::I64(i64::MIN))
    );
}

#[test]
fn integer_literal_overflow_is_a_syntax_error() {
    assert!(parse("let main: i64 = 9223372036854775808").is_err());
}

#[test]
fn bootstrap_subtraction() {
    assert_eq!(run_source("let main: i64 = - 5 3"), Ok(RuntimeVal::I64(2)));
}

#[test]
fn bootstrap_multiplication() {
    assert_eq!(run_source("let main: i64 = * 4 3"), Ok(RuntimeVal::I64(12)));
}

#[test]
fn bootstrap_division_truncates() {
    assert_eq!(run_source("let main: i64 = / 7 2"), Ok(RuntimeVal::I64(3)));
    assert_eq!(run_source("let main: i64 = / -7 2"), Ok(RuntimeVal::I64(-3)));
}

#[test]
fn bootstrap_integer_equality() {
    assert_eq!(
        run_source("let main: bool = == 4 4"),
        Ok(RuntimeVal::Bool(true))
    );
    assert_eq!(
        run_source("let main: bool = == 4 5"),
        Ok(RuntimeVal::Bool(false))
    );
}

#[test]
fn division_by_zero_traps() {
    assert!(matches!(
        run_source("let main: i64 = / 1 0"),
        Err(CompileError::ExecutionTrap)
    ));
}

#[test]
fn conditional_merge_integers() {
    assert_eq!(
        run_source("let main: i64 = if true then 10 else 20"),
        Ok(RuntimeVal::I64(10))
    );
    assert_eq!(
        run_source("let main: i64 = if false then 10 else 20"),
        Ok(RuntimeVal::I64(20))
    );
}

#[test]
fn conditional_merge_pointers_and_fresh_names() {
    // pointer-representation branches: each literal gets a fresh global;
    // the chosen branch's address comes back
    let t = run_source("let main: str = if true then \"a\" else \"b\"");
    assert_eq!(t, Ok(RuntimeVal::GlobalPtr(String::from("0"))));
    let f = run_source("let main: str = if false then \"a\" else \"b\"");
    assert_eq!(f, Ok(RuntimeVal::GlobalPtr(String::from("1"))));
}

#[test]
fn parameter_shadows_global_function() {
    // `x` inside `f` resolves to the parameter, not the function named `x`
    let src = "let x: i64 = 1\nlet f(x: i64): i64 = x\nlet main: i64 = f 42";
    assert_eq!(run_source(src), Ok(RuntimeVal::I64(42)));
}

#[test]
fn unresolved_call_is_fatal_and_names_the_symbol() {
    let ast = parse("let main: i64 = nosuch 1").unwrap();
    let mut cg = CodeGen::new();
    let r = cg.compile(ast, Vec::new());
    match r {
        Err(CompileError::UnresolvedSymbol(name)) => assert_eq!(name, "nosuch"),
        other => panic!("expected an unresolved-symbol failure, got {:?}", other),
    }
}

#[test]
fn duplicate_definition_is_fatal() {
    let ast = parse("let main: i64 = 1\nlet main: i64 = 2").unwrap();
    let mut cg = CodeGen::new();
    assert!(matches!(
        cg.compile(ast, Vec::new()),
        Err(CompileError::DuplicateSymbol(_))
    ));
}

#[test]
fn missing_entry_point() {
    let ast = parse("let f: i64 = 1").unwrap();
    let mut cg = CodeGen::new();
    cg.compile(ast, Vec::new()).unwrap();
    assert!(matches!(
        cg.call_main(1000),
        Err(CompileError::MissingEntryPoint)
    ));
}

#[test]
fn parenthesized_value_is_identity() {
    assert_eq!(run_source("let main: i64 = (5)"), Ok(RuntimeVal::I64(5)));
}

#[test]
fn addition_wraps() {
    assert_eq!(
        run_source("let main: i64 = + 9223372036854775807 1"),
        Ok(RuntimeVal::I64(i64::MIN))
    );
}

#[test]
fn core_library_definitions_are_linked() {
    // a core-library definition compiled at bootstrap is callable from
    // user code like any other function
    let core = parse("let double(n: i64): i64 = * n 2").unwrap();
    let ast = parse("let main: i64 = double 21").unwrap();
    let mut cg = CodeGen::new();
    cg.compile(ast, core).unwrap();
    assert_eq!(cg.call_main(1000), Ok(RuntimeVal::I64(42)));
}

#[test]
fn user_functions_call_each_other_in_order() {
    let src = "let inc(n: i64): i64 = + n 1\nlet main: i64 = inc 41";
    assert_eq!(run_source(src), Ok(RuntimeVal::I64(42)));
}

#[test]
fn forward_references_are_unresolved() {
    let src = "let main: i64 = later 1\nlet later(n: i64): i64 = n";
    let ast = parse(src).unwrap();
    let mut cg = CodeGen::new();
    assert!(matches!(
        cg.compile(ast, Vec::new()),
        Err(CompileError::UnresolvedSymbol(_))
    ));
}

#[test]
fn get_function_finds_definitions() {
    let ast = parse("let main: i64 = 1").unwrap();
    let mut cg = CodeGen::new();
    cg.compile(ast, Vec::new()).unwrap();
    assert!(cg.get_function("main").is_some());
    assert!(cg.get_function("absent").is_none());
}

#[test]
fn external_calls_evaluate_to_zero() {
    // the interpreter assigns external calls the result zero; their real
    // effect is outside its scope
    assert_eq!(
        run_source("let main: i64 = printf \"Hello World!\""),
        Ok(RuntimeVal::I64(0))
    );
}
