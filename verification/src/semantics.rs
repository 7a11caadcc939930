//! What the generated code means: proofs connecting the code generator's
//! model to the interpreter's semantics. Each public proof function states
//! one guarantee of the backend over all inputs it quantifies.
use crate::codegen::{
    active, builtin_add, builtin_bool_eq, builtin_div, builtin_int_eq, builtin_mul, builtin_sub,
    spec_compile_args, spec_compile_identifier, spec_compile_node, CgV, CompiledV, ErrorV,
};
use crate::eval::{eval_fn, init_frame, run_function, sdiv_i64, RuntimeV};
use crate::ir::{find_function, FunctionV, InstrV, ModuleV, OperandV, TermV};
use crate::parser::ast::AstV;
use vstd::prelude::*;
use vstd::wrapping::i64_specs;

verus! {

broadcast use vstd::string::group_string_axioms;

/// Appending a function whose name is not yet bound makes it findable at
/// the end of the table.
pub proof fn lemma_find_function_push(fns: Seq<FunctionV>, f: FunctionV)
    requires
        find_function(fns, f.name) is None,
    ensures
        find_function(fns.push(f), f.name) == Some(fns.len() as int),
    decreases fns.len(),
{
    if fns.len() == 0 {
        assert(fns.push(f)[0] == f);
    } else {
        assert(fns.push(f)[0] == fns[0]);
        assert(fns.push(f).drop_first() =~= fns.drop_first().push(f));
        lemma_find_function_push(fns.drop_first(), f);
    }
}

/// The syntax tree of a function without parameters returning an integer
/// literal.
pub open spec fn int_literal_fn_ast(fname: Seq<char>, n: i64) -> AstV {
    AstV::Fn {
        name: fname,
        return_type: Box::new(AstV::Type("i64"@)),
        args: Box::new(AstV::FnArgs(Seq::empty())),
        value: Box::new(AstV::Int(n)),
    }
}

/// Literal round-trip: compiling a function that returns the integer
/// literal `n` and then executing it yields exactly `n`, for every 64-bit
/// `n`, every starting state, and every step budget.
pub proof fn lemma_literal_round_trip(s: CgV, fname: Seq<char>, n: i64, fuel: nat)
    requires
        find_function(active(s).functions, fname) is None,
        active(s).functions.len() < usize::MAX,
    ensures
        ({
            let (s2, r) = spec_compile_node(s, int_literal_fn_ast(fname, n));
            &&& r is Ok
            &&& run_function(active(s2), fname, Seq::empty(), fuel) == Some(RuntimeV::I64(n))
        }),
{
    reveal_with_fuel(crate::codegen::spec_compile_node, 3);
    reveal_with_fuel(crate::codegen::spec_compile_function, 2);
    reveal_with_fuel(crate::codegen::spec_param_list, 2);
    reveal_with_fuel(crate::eval::eval_fn, 2);
    reveal_with_fuel(crate::eval::eval_block, 2);
    reveal_with_fuel(crate::eval::eval_instrs, 2);
    let (s2, r) = spec_compile_node(s, int_literal_fn_ast(fname, n));
    let fidx = active(s).functions.len() as usize;
    let fin = FunctionV {
        name: fname,
        params: Seq::empty(),
        ret: crate::ir::IrType::I64,
        external: false,
        variadic: false,
        blocks: seq![
            crate::ir::BlockV {
                label: "entry"@,
                instrs: Seq::empty(),
                terminator: Some(TermV::Ret(OperandV::ConstI64(n))),
            },
        ],
        next_reg: 0,
    };
    assert(active(s2).functions =~~= active(s).functions.push(fin));
    lemma_find_function_push(active(s).functions, fin);
    assert(find_function(active(s2).functions, fname) == Some(fidx as int));
    let frame = init_frame(fin, Seq::empty());
    assert(eval_fn(active(s2), fidx as int, Seq::empty(), fuel) == Some(RuntimeV::I64(n)));
}

/// The syntax tree of the identity function `fname(pname: i64): i64 =
/// pname`.
pub open spec fn identity_fn_ast(fname: Seq<char>, pname: Seq<char>) -> AstV {
    AstV::Fn {
        name: fname,
        return_type: Box::new(AstV::Type("i64"@)),
        args: Box::new(
            AstV::FnArgs(
                seq![
                    (
                        AstV::Identifier { name: pname, args: Seq::empty() },
                        AstV::Type("i64"@),
                    ),
                ],
            ),
        ),
        value: Box::new(AstV::Identifier { name: pname, args: Seq::empty() }),
    }
}

/// Parameter shadowing: in the body of `fname(pname: i64): i64 = pname`,
/// the identifier resolves to the parameter, so calling the compiled
/// function on `a` returns `a` — whatever the state holds, including a
/// coincidentally-named global function.
pub proof fn lemma_parameter_shadowing(
    s: CgV,
    fname: Seq<char>,
    pname: Seq<char>,
    a: i64,
    fuel: nat,
)
    requires
        find_function(active(s).functions, fname) is None,
        active(s).functions.len() < usize::MAX,
    ensures
        ({
            let (s2, r) = spec_compile_node(s, identity_fn_ast(fname, pname));
            &&& r is Ok
            &&& run_function(active(s2), fname, seq![RuntimeV::I64(a)], fuel) == Some(
                RuntimeV::I64(a),
            )
        }),
{
    reveal_with_fuel(crate::codegen::spec_compile_node, 3);
    reveal_with_fuel(crate::codegen::spec_compile_function, 2);
    reveal_with_fuel(crate::codegen::spec_compile_identifier, 2);
    reveal_with_fuel(crate::codegen::spec_param_list, 3);
    reveal_with_fuel(crate::codegen::scope_lookup, 2);
    reveal_with_fuel(crate::eval::eval_fn, 2);
    reveal_with_fuel(crate::eval::eval_block, 2);
    reveal_with_fuel(crate::eval::eval_instrs, 2);
    let (s2, r) = spec_compile_node(s, identity_fn_ast(fname, pname));
    let fidx = active(s).functions.len() as usize;
    let fin = FunctionV {
        name: fname,
        params: seq![(pname, crate::ir::IrType::I64)],
        ret: crate::ir::IrType::I64,
        external: false,
        variadic: false,
        blocks: seq![
            crate::ir::BlockV {
                label: "entry"@,
                instrs: Seq::empty(),
                terminator: Some(TermV::Ret(OperandV::Param(0))),
            },
        ],
        next_reg: 0,
    };
    assert(crate::codegen::spec_param_list(
        seq![(AstV::Identifier { name: pname, args: Seq::empty() }, AstV::Type("i64"@))],
    ) == Ok::<Seq<(Seq<char>, crate::ir::IrType)>, ErrorV>(
        seq![(pname, crate::ir::IrType::I64)],
    )) by {
        let pairs = seq![
            (AstV::Identifier { name: pname, args: Seq::empty() }, AstV::Type("i64"@)),
        ];
        assert(pairs.drop_first().len() == 0);
        assert(seq![(pname, crate::ir::IrType::I64)] + Seq::<(Seq<char>, crate::ir::IrType)>::empty()
            =~= seq![(pname, crate::ir::IrType::I64)]);
    }
    let scope2 = crate::codegen::scope_of_params(seq![(pname, crate::ir::IrType::I64)]);
    assert(scope2[0] == (pname, 0usize, crate::ir::IrType::I64));
    assert(crate::codegen::scope_lookup(scope2, pname) == Some((0usize, crate::ir::IrType::I64)));
    assert(active(s2).functions =~~= active(s).functions.push(fin));
    lemma_find_function_push(active(s).functions, fin);
    let argvals = seq![RuntimeV::I64(a)];
    let frame = init_frame(fin, argvals);
    assert(frame.args[0] == RuntimeV::I64(a));
    assert(eval_fn(active(s2), fidx as int, argvals, fuel) == Some(RuntimeV::I64(a)));
}

/// Unresolved call is fatal: lowering a call to a name that is neither a
/// parameter of the enclosing function nor a previously defined function
/// leaves the state unchanged and fails with a diagnostic naming exactly
/// that symbol.
pub proof fn lemma_unresolved_call_is_fatal(s: CgV, name: Seq<char>)
    requires
        crate::codegen::scope_lookup(s.scope, name) is None,
        crate::codegen::lookup_callee(s, name) is None,
    ensures
        spec_compile_node(s, AstV::Identifier { name, args: Seq::empty() }) == (
            s,
            Err::<CompiledV, ErrorV>(ErrorV::UnresolvedSymbol(name)),
        ),
{
    let args: Seq<AstV> = Seq::empty();
    assert(spec_compile_args(s, args) == (
        s,
        Ok::<Seq<(OperandV, crate::ir::IrType)>, ErrorV>(Seq::empty()),
    ));
    assert(spec_compile_identifier(s, name, args) == (
        s,
        Err::<CompiledV, ErrorV>(ErrorV::UnresolvedSymbol(name)),
    ));
}

/// A built-in binary operator, found anywhere in a module, computes
/// exactly its operation. Addition, subtraction and multiplication wrap as
/// 64-bit two's complement.
pub proof fn lemma_builtin_add_eval(m: ModuleV, i: int, a: i64, b: i64, fuel: nat)
    requires
        0 <= i < m.functions.len(),
        m.functions[i] == builtin_add(),
    ensures
        eval_fn(m, i, seq![RuntimeV::I64(a), RuntimeV::I64(b)], fuel) == Some(
            RuntimeV::I64(i64_specs::wrapping_add(a, b)),
        ),
{
    lemma_builtin_binop_frame(m, i, a, b, fuel);
}

/// See `lemma_builtin_add_eval`.
pub proof fn lemma_builtin_sub_eval(m: ModuleV, i: int, a: i64, b: i64, fuel: nat)
    requires
        0 <= i < m.functions.len(),
        m.functions[i] == builtin_sub(),
    ensures
        eval_fn(m, i, seq![RuntimeV::I64(a), RuntimeV::I64(b)], fuel) == Some(
            RuntimeV::I64(i64_specs::wrapping_sub(a, b)),
        ),
{
    lemma_builtin_binop_frame(m, i, a, b, fuel);
}

/// See `lemma_builtin_add_eval`.
pub proof fn lemma_builtin_mul_eval(m: ModuleV, i: int, a: i64, b: i64, fuel: nat)
    requires
        0 <= i < m.functions.len(),
        m.functions[i] == builtin_mul(),
    ensures
        eval_fn(m, i, seq![RuntimeV::I64(a), RuntimeV::I64(b)], fuel) == Some(
            RuntimeV::I64(i64_specs::wrapping_mul(a, b)),
        ),
{
    lemma_builtin_binop_frame(m, i, a, b, fuel);
}

/// The built-in division truncates toward zero; a zero divisor or the one
/// overflowing dividend traps (the interpreter returns nothing).
pub proof fn lemma_builtin_div_eval(m: ModuleV, i: int, a: i64, b: i64, fuel: nat)
    requires
        0 <= i < m.functions.len(),
        m.functions[i] == builtin_div(),
    ensures
        eval_fn(m, i, seq![RuntimeV::I64(a), RuntimeV::I64(b)], fuel) == (match sdiv_i64(a, b) {
            Some(q) => Some(RuntimeV::I64(q)),
            None => None,
        }),
{
    lemma_builtin_binop_frame(m, i, a, b, fuel);
}

/// The built-in integer equality compares its two arguments.
pub proof fn lemma_builtin_int_eq_eval(m: ModuleV, i: int, a: i64, b: i64, fuel: nat)
    requires
        0 <= i < m.functions.len(),
        m.functions[i] == builtin_int_eq(),
    ensures
        eval_fn(m, i, seq![RuntimeV::I64(a), RuntimeV::I64(b)], fuel) == Some(
            RuntimeV::Bool(a == b),
        ),
{
    lemma_builtin_binop_frame(m, i, a, b, fuel);
}

/// The built-in boolean equality compares its two arguments.
pub proof fn lemma_builtin_bool_eq_eval(m: ModuleV, i: int, a: bool, b: bool, fuel: nat)
    requires
        0 <= i < m.functions.len(),
        m.functions[i] == builtin_bool_eq(),
    ensures
        eval_fn(m, i, seq![RuntimeV::Bool(a), RuntimeV::Bool(b)], fuel) == Some(
            RuntimeV::Bool(a == b),
        ),
{
    let f = m.functions[i];
    let argvals = seq![RuntimeV::Bool(a), RuntimeV::Bool(b)];
    let frame = init_frame(f, argvals);
    assert(frame.regs.len() == 1);
    assert(frame.args[0] == RuntimeV::Bool(a));
    assert(frame.args[1] == RuntimeV::Bool(b));
    let blk = f.blocks[0];
    assert(blk.instrs.len() == 1);
    assert(blk.instrs[0] == (0usize, InstrV::CmpEq(OperandV::Param(0), OperandV::Param(1))));
    assert(blk.instrs.drop_first().len() == 0);
}

/// The common evaluation of the two-parameter integer builtins.
proof fn lemma_builtin_binop_frame(m: ModuleV, i: int, a: i64, b: i64, fuel: nat)
    requires
        0 <= i < m.functions.len(),
        m.functions[i] == builtin_add() || m.functions[i] == builtin_sub() || m.functions[i]
            == builtin_mul() || m.functions[i] == builtin_div() || m.functions[i]
            == builtin_int_eq(),
    ensures
        m.functions[i] == builtin_add() ==> eval_fn(
            m,
            i,
            seq![RuntimeV::I64(a), RuntimeV::I64(b)],
            fuel,
        ) == Some(RuntimeV::I64(i64_specs::wrapping_add(a, b))),
        m.functions[i] == builtin_sub() ==> eval_fn(
            m,
            i,
            seq![RuntimeV::I64(a), RuntimeV::I64(b)],
            fuel,
        ) == Some(RuntimeV::I64(i64_specs::wrapping_sub(a, b))),
        m.functions[i] == builtin_mul() ==> eval_fn(
            m,
            i,
            seq![RuntimeV::I64(a), RuntimeV::I64(b)],
            fuel,
        ) == Some(RuntimeV::I64(i64_specs::wrapping_mul(a, b))),
        m.functions[i] == builtin_div() ==> eval_fn(
            m,
            i,
            seq![RuntimeV::I64(a), RuntimeV::I64(b)],
            fuel,
        ) == (match sdiv_i64(a, b) {
            Some(q) => Some(RuntimeV::I64(q)),
            None => None,
        }),
        m.functions[i] == builtin_int_eq() ==> eval_fn(
            m,
            i,
            seq![RuntimeV::I64(a), RuntimeV::I64(b)],
            fuel,
        ) == Some(RuntimeV::Bool(a == b)),
{
    let f = m.functions[i];
    let argvals = seq![RuntimeV::I64(a), RuntimeV::I64(b)];
    let frame = init_frame(f, argvals);
    assert(frame.regs.len() == 1);
    assert(frame.args[0] == RuntimeV::I64(a));
    assert(frame.args[1] == RuntimeV::I64(b));
    let blk = f.blocks[0];
    assert(blk.instrs.len() == 1);
    assert(blk.instrs.drop_first().len() == 0);
}

/// The syntax tree of a function returning `if b then n else m` over
/// integer literals.
pub open spec fn conditional_int_fn_ast(fname: Seq<char>, b: bool, n: i64, m: i64) -> AstV {
    AstV::Fn {
        name: fname,
        return_type: Box::new(AstV::Type("i64"@)),
        args: Box::new(AstV::FnArgs(Seq::empty())),
        value: Box::new(
            AstV::IfElse {
                condition: Box::new(AstV::Boolean(b)),
                stmt_true: Box::new(AstV::Int(n)),
                stmt_false: Box::new(AstV::Int(m)),
            },
        ),
    }
}

/// Conditional merge, integer branches: the compiled conditional, once
/// executed, yields the true branch's value under a true condition and the
/// false branch's value under a false one.
#[verifier::rlimit(100)]
#[verifier::spinoff_prover]
pub proof fn lemma_conditional_merge_int(
    s: CgV,
    fname: Seq<char>,
    b: bool,
    n: i64,
    m: i64,
    fuel: nat,
)
    requires
        find_function(active(s).functions, fname) is None,
        active(s).functions.len() < usize::MAX,
        fuel >= 2,
    ensures
        ({
            let (s2, r) = spec_compile_node(s, conditional_int_fn_ast(fname, b, n, m));
            &&& r is Ok
            &&& run_function(active(s2), fname, Seq::empty(), fuel) == Some(
                RuntimeV::I64(
                    if b {
                        n
                    } else {
                        m
                    },
                ),
            )
        }),
{
    reveal_with_fuel(crate::codegen::spec_compile_node, 3);
    reveal_with_fuel(crate::codegen::spec_compile_function, 2);
    reveal_with_fuel(crate::codegen::spec_compile_conditional, 2);
    reveal_with_fuel(crate::codegen::spec_compile_conditional_blocks, 2);
    reveal_with_fuel(crate::codegen::spec_param_list, 2);
    reveal_with_fuel(crate::eval::eval_fn, 2);
    reveal_with_fuel(crate::eval::eval_block, 4);
    reveal_with_fuel(crate::eval::eval_instrs, 3);
    reveal_with_fuel(crate::eval::eval_instr, 2);
    reveal_with_fuel(crate::eval::phi_pick, 3);
    let ic = s.in_core;
    let fidx = active(s).functions.len() as usize;
    let am0 = active(s);
    let b_open = crate::ir::BlockV { label: "entry"@, instrs: Seq::empty(), terminator: None };
    let f0 = FunctionV {
        name: fname,
        params: Seq::empty(),
        ret: crate::ir::IrType::I64,
        external: false,
        variadic: false,
        blocks: seq![b_open],
        next_reg: 0,
    };
    let s1v = crate::codegen::with_active(
        s,
        crate::ir::ModuleV { functions: am0.functions.push(f0), ..am0 },
    );
    let s2v = CgV {
        scope: crate::codegen::scope_of_params(Seq::empty()),
        cursor: Some(crate::codegen::Cursor { in_core: ic, func: fidx, block: 0 }),
        ..s1v
    };
    let node = conditional_int_fn_ast(fname, b, n, m);
    let body = AstV::IfElse {
        condition: Box::new(AstV::Boolean(b)),
        stmt_true: Box::new(AstV::Int(n)),
        stmt_false: Box::new(AstV::Int(m)),
    };
    assert(crate::codegen::spec_param_list(Seq::empty()) == Ok::<
        Seq<(Seq<char>, crate::ir::IrType)>,
        ErrorV,
    >(Seq::empty()));
    assert(spec_compile_node(s, node) == crate::codegen::spec_compile_function(
        s,
        fname,
        AstV::Type("i64"@),
        AstV::FnArgs(Seq::empty()),
        body,
    ));
    // the comparison is appended to the entry block
    let cmp = InstrV::CmpEq(OperandV::ConstBool(b), OperandV::ConstBool(true));
    let b_cmp = crate::ir::BlockV {
        label: "entry"@,
        instrs: seq![(0usize, cmp)],
        terminator: None,
    };
    let f1 = FunctionV { blocks: f0.blocks.update(0, b_cmp), next_reg: 1, ..f0 };
    let m2v = crate::ir::ModuleV {
        functions: active(s2v).functions.update(fidx as int, f1),
        ..active(s2v)
    };
    let s3v = crate::codegen::with_active(s2v, m2v);
    assert(crate::codegen::spec_emit(s2v, cmp) == Some((s3v, 0usize)));
    // three fresh blocks on the last function
    let f2 = crate::codegen::spec_append_block(
        crate::codegen::spec_append_block(crate::codegen::spec_append_block(f1, "then"@), "else"@),
        "ifcont"@,
    );
    let s4v = crate::codegen::with_active(
        s3v,
        crate::ir::ModuleV { functions: active(s3v).functions.update(fidx as int, f2), ..active(s3v) },
    );
    // entry closed with the conditional branch
    let b_cbr = crate::ir::BlockV {
        terminator: Some(TermV::CondBr { cond: OperandV::Reg(0), then_blk: 1, else_blk: 2 }),
        ..b_cmp
    };
    let f3 = FunctionV { blocks: f2.blocks.update(0, b_cbr), ..f2 };
    let s5v = crate::codegen::with_active(
        s4v,
        crate::ir::ModuleV { functions: active(s4v).functions.update(fidx as int, f3), ..active(s4v) },
    );
    assert(f2.blocks[0] == b_cmp);
    assert(crate::codegen::spec_terminate(
        s4v,
        TermV::CondBr { cond: OperandV::Reg(0), then_blk: 1, else_blk: 2 },
    ) == Some(s5v));
    let s6v = CgV {
        cursor: Some(crate::codegen::Cursor { in_core: ic, func: fidx, block: 1 }),
        ..s5v
    };
    let b_then = crate::ir::BlockV {
        label: "then"@,
        instrs: Seq::empty(),
        terminator: Some(TermV::Br(3)),
    };
    let f4 = FunctionV { blocks: f3.blocks.update(1, b_then), ..f3 };
    let s7v = crate::codegen::with_active(
        s6v,
        crate::ir::ModuleV { functions: active(s6v).functions.update(fidx as int, f4), ..active(s6v) },
    );
    assert(f3.blocks[1] == (crate::ir::BlockV {
        label: "then"@,
        instrs: Seq::empty(),
        terminator: None,
    }));
    assert(crate::codegen::spec_terminate(s6v, TermV::Br(3)) == Some(s7v));
    let s8v = CgV {
        cursor: Some(crate::codegen::Cursor { in_core: ic, func: fidx, block: 2 }),
        ..s7v
    };
    let b_else = crate::ir::BlockV {
        label: "else"@,
        instrs: Seq::empty(),
        terminator: Some(TermV::Br(3)),
    };
    let f5 = FunctionV { blocks: f4.blocks.update(2, b_else), ..f4 };
    let s10v = crate::codegen::with_active(
        s8v,
        crate::ir::ModuleV { functions: active(s8v).functions.update(fidx as int, f5), ..active(s8v) },
    );
    assert(f4.blocks[2] == (crate::ir::BlockV {
        label: "else"@,
        instrs: Seq::empty(),
        terminator: None,
    }));
    assert(crate::codegen::spec_terminate(s8v, TermV::Br(3)) == Some(s10v));
    let s11v = CgV {
        cursor: Some(crate::codegen::Cursor { in_core: ic, func: fidx, block: 3 }),
        ..s10v
    };
    let phi = InstrV::Phi {
        ty: crate::ir::IrType::I64,
        incoming: seq![(OperandV::ConstI64(n), 1usize), (OperandV::ConstI64(m), 2usize)],
    };
    let b_phi = crate::ir::BlockV {
        label: "ifcont"@,
        instrs: seq![(1usize, phi)],
        terminator: None,
    };
    let f6 = FunctionV { blocks: f5.blocks.update(3, b_phi), next_reg: 2, ..f5 };
    let s12v = crate::codegen::with_active(
        s11v,
        crate::ir::ModuleV {
            functions: active(s11v).functions.update(fidx as int, f6),
            ..active(s11v)
        },
    );
    assert(f5.blocks[3] == (crate::ir::BlockV {
        label: "ifcont"@,
        instrs: Seq::empty(),
        terminator: None,
    }));
    assert(f5.blocks[3].instrs.push((1usize, phi)) =~= seq![(1usize, phi)]);
    assert(crate::codegen::spec_emit(s11v, phi) == Some((s12v, 1usize)));
    assert(crate::codegen::spec_compile_conditional_blocks(
        s3v,
        AstV::Int(m),
        OperandV::ConstI64(n),
        crate::ir::IrType::I64,
        0usize,
    ) == (s12v, Ok::<CompiledV, ErrorV>(CompiledV::Val {
        op: OperandV::Reg(1),
        ty: crate::ir::IrType::I64,
    })));
    assert(crate::codegen::spec_compile_conditional(
        s2v,
        AstV::Boolean(b),
        AstV::Int(n),
        AstV::Int(m),
    ) == (s12v, Ok::<CompiledV, ErrorV>(CompiledV::Val {
        op: OperandV::Reg(1),
        ty: crate::ir::IrType::I64,
    })));
    assert(spec_compile_node(s2v, body) == (s12v, Ok::<CompiledV, ErrorV>(CompiledV::Val {
        op: OperandV::Reg(1),
        ty: crate::ir::IrType::I64,
    })));
    // the single return of the function's value
    let b_ret = crate::ir::BlockV { terminator: Some(TermV::Ret(OperandV::Reg(1))), ..b_phi };
    let f7 = FunctionV { blocks: f6.blocks.update(3, b_ret), ..f6 };
    let s13v = crate::codegen::with_active(
        s12v,
        crate::ir::ModuleV {
            functions: active(s12v).functions.update(fidx as int, f7),
            ..active(s12v)
        },
    );
    assert(f6.blocks[3] == b_phi);
    assert(crate::codegen::spec_terminate(s12v, TermV::Ret(OperandV::Reg(1))) == Some(s13v));
    let (s2, r) = spec_compile_node(s, node);
    assert(s2 =~~= s13v);
    assert(r is Ok);
    // the compiled function, in one piece
    let fin = FunctionV {
        name: fname,
        params: Seq::empty(),
        ret: crate::ir::IrType::I64,
        external: false,
        variadic: false,
        blocks: seq![b_cbr, b_then, b_else, b_ret],
        next_reg: 2,
    };
    assert(f7 =~~= fin);
    assert(active(s2).functions =~~= am0.functions.push(fin));
    lemma_find_function_push(am0.functions, fin);
    assert(find_function(active(s2).functions, fname) == Some(fidx as int));
    // execution
    let mm = active(s2);
    let frame0 = init_frame(fin, Seq::empty());
    assert(frame0.regs.len() == 2);
    let frame1 = crate::eval::set_reg(frame0, 0, RuntimeV::Bool(b == true)).unwrap();
    assert(b_cbr.instrs.drop_first().len() == 0);
    assert(crate::eval::eval_instrs(mm, frame0, b_cbr.instrs, None, fuel) == Some(frame1));
    assert(frame1.regs[0] == Some(RuntimeV::Bool(b)));
    let pred: usize = if b {
        1
    } else {
        2
    };
    let expected = RuntimeV::I64(
        if b {
            n
        } else {
            m
        },
    );
    let fuel1 = (fuel - 1) as nat;
    let fuel2 = (fuel - 2) as nat;
    // the continuation block merges by predecessor
    let picked = if b {
        OperandV::ConstI64(n)
    } else {
        OperandV::ConstI64(m)
    };
    assert(crate::eval::phi_pick(phi->incoming, pred) == Some(picked)) by {
        assert(phi->incoming.drop_first() =~= seq![(OperandV::ConstI64(m), 2usize)]);
    }
    let frame2 = crate::eval::set_reg(frame1, 1, expected).unwrap();
    assert(crate::eval::eval_instr(mm, frame1, 1usize, phi, Some(pred), fuel2) == Some(frame2));
    assert(b_ret.instrs.drop_first().len() == 0);
    assert(crate::eval::eval_instrs(mm, frame1, b_ret.instrs, Some(pred), fuel2) == Some(frame2));
    assert(frame2.regs[1] == Some(expected));
    assert(crate::eval::eval_block(mm, fin, 3, Some(pred), frame1, fuel2) == Some(expected));
    assert(fin.blocks[pred as int].instrs.len() == 0);
    assert(crate::eval::eval_block(mm, fin, pred, Some(0), frame1, fuel1) == Some(expected));
    assert(crate::eval::eval_block(mm, fin, 0, None, frame0, fuel) == Some(expected));
    assert(eval_fn(mm, fidx as int, Seq::empty(), fuel) == Some(expected));
}

/// The syntax tree of a function returning `if b then x else y` over
/// string literals (pointer-representation branches).
pub open spec fn conditional_str_fn_ast(fname: Seq<char>, b: bool, x: Seq<char>, y: Seq<char>) -> AstV {
    AstV::Fn {
        name: fname,
        return_type: Box::new(AstV::Type("str"@)),
        args: Box::new(AstV::FnArgs(Seq::empty())),
        value: Box::new(
            AstV::IfElse {
                condition: Box::new(AstV::Boolean(b)),
                stmt_true: Box::new(AstV::Str(x)),
                stmt_false: Box::new(AstV::Str(y)),
            },
        ),
    }
}

/// The compiled form of a function whose body is `if b then x else y`
/// over string literals whose globals were named `tname` and `ename`.
pub open spec fn cond_str_compiled_fn(
    fname: Seq<char>,
    b: bool,
    tname: Seq<char>,
    ename: Seq<char>,
) -> FunctionV {
    FunctionV {
        name: fname,
        params: Seq::empty(),
        ret: crate::ir::IrType::Ptr,
        external: false,
        variadic: false,
        blocks: seq![
            crate::ir::BlockV {
                label: "entry"@,
                instrs: seq![
                    (0usize, InstrV::CmpEq(OperandV::ConstBool(b), OperandV::ConstBool(true))),
                ],
                terminator: Some(
                    TermV::CondBr { cond: OperandV::Reg(0), then_blk: 1, else_blk: 2 },
                ),
            },
            crate::ir::BlockV {
                label: "then"@,
                instrs: Seq::empty(),
                terminator: Some(TermV::Br(3)),
            },
            crate::ir::BlockV {
                label: "else"@,
                instrs: Seq::empty(),
                terminator: Some(TermV::Br(3)),
            },
            crate::ir::BlockV {
                label: "ifcont"@,
                instrs: seq![
                    (
                        1usize,
                        InstrV::Phi {
                            ty: crate::ir::IrType::Ptr,
                            incoming: seq![
                                (OperandV::Global(tname), 1usize),
                                (OperandV::Global(ename), 2usize),
                            ],
                        },
                    ),
                ],
                terminator: Some(TermV::Ret(OperandV::Reg(1))),
            },
        ],
        next_reg: 2,
    }
}

/// The compile half of the pointer-branch conditional-merge proof.
#[verifier::rlimit(100)]
#[verifier::spinoff_prover]
proof fn lemma_conditional_str_compile(s: CgV, fname: Seq<char>, b: bool, x: Seq<char>, y: Seq<char>)
    requires
        find_function(active(s).functions, fname) is None,
        active(s).functions.len() < usize::MAX,
    ensures
        ({
            let (s2, r) = spec_compile_node(s, conditional_str_fn_ast(fname, b, x, y));
            let g0 = active(s).globals;
            let tname = crate::text::dec_seq(crate::codegen::first_free(g0));
            let g1 = g0.push(crate::ir::GlobalV { name: tname, text: x });
            let ename = crate::text::dec_seq(crate::codegen::first_free(g1));
            &&& r is Ok
            &&& active(s2).functions == active(s).functions.push(
                cond_str_compiled_fn(fname, b, tname, ename),
            )
            &&& active(s2).globals == g1.push(crate::ir::GlobalV { name: ename, text: y })
        }),
{
    reveal_with_fuel(crate::codegen::spec_compile_node, 5);
    reveal_with_fuel(crate::codegen::spec_compile_function, 2);
    reveal_with_fuel(crate::codegen::spec_compile_conditional, 3);
    reveal_with_fuel(crate::codegen::spec_compile_conditional_blocks, 2);
    reveal_with_fuel(crate::codegen::spec_param_list, 2);
    let ic = s.in_core;
    let fidx = active(s).functions.len() as usize;
    let am0 = active(s);
    let g0 = am0.globals;
    let tname = crate::text::dec_seq(crate::codegen::first_free(g0));
    let gt = crate::ir::GlobalV { name: tname, text: x };
    let g1 = g0.push(gt);
    let ename = crate::text::dec_seq(crate::codegen::first_free(g1));
    let ge = crate::ir::GlobalV { name: ename, text: y };
    crate::codegen::lemma_first_free_props(g1, 0);
    assert(!crate::ir::global_named(g1, ename));
    assert(g1[g1.len() - 1].name == tname);
    assert(tname != ename) by {
        if tname == ename {
            assert(crate::ir::global_named(g1, ename));
        }
    }
    let b_open = crate::ir::BlockV { label: "entry"@, instrs: Seq::empty(), terminator: None };
    let f0 = FunctionV {
        name: fname,
        params: Seq::empty(),
        ret: crate::ir::IrType::Ptr,
        external: false,
        variadic: false,
        blocks: seq![b_open],
        next_reg: 0,
    };
    let s1v = crate::codegen::with_active(
        s,
        crate::ir::ModuleV { functions: am0.functions.push(f0), ..am0 },
    );
    let s2v = CgV {
        scope: crate::codegen::scope_of_params(Seq::empty()),
        cursor: Some(crate::codegen::Cursor { in_core: ic, func: fidx, block: 0 }),
        ..s1v
    };
    let node = conditional_str_fn_ast(fname, b, x, y);
    let body = AstV::IfElse {
        condition: Box::new(AstV::Boolean(b)),
        stmt_true: Box::new(AstV::Str(x)),
        stmt_false: Box::new(AstV::Str(y)),
    };
    assert(crate::codegen::spec_param_list(Seq::empty()) == Ok::<
        Seq<(Seq<char>, crate::ir::IrType)>,
        ErrorV,
    >(Seq::empty()));
    assert(crate::codegen::spec_compile_type(AstV::Type("str"@)) == Ok::<
        crate::ir::IrType,
        ErrorV,
    >(crate::ir::IrType::Ptr)) by {
        reveal_strlit("str");
        reveal_strlit("i64");
        reveal_strlit("bool");
        assert("str"@.len() == 3);
        assert("i64"@.len() == 3);
        assert("bool"@.len() == 4);
        assert("str"@[0] == 's' && "i64"@[0] == 'i');
    }
    assert(spec_compile_node(s, node) == crate::codegen::spec_compile_function(
        s,
        fname,
        AstV::Type("str"@),
        AstV::FnArgs(Seq::empty()),
        body,
    ));
    // the true branch binds its literal to a fresh global first
    assert(active(s2v).globals == g0);
    let s2t = crate::codegen::with_active(
        s2v,
        crate::ir::ModuleV { globals: g1, ..active(s2v) },
    );
    assert(crate::codegen::spec_compile_literal_global(s2v, x) == (
        s2t,
        Ok::<CompiledV, ErrorV>(CompiledV::Val { op: OperandV::Global(tname), ty: crate::ir::IrType::Ptr }),
    ));
    // the comparison is appended to the entry block
    let cmp = InstrV::CmpEq(OperandV::ConstBool(b), OperandV::ConstBool(true));
    let b_cmp = crate::ir::BlockV {
        label: "entry"@,
        instrs: seq![(0usize, cmp)],
        terminator: None,
    };
    let f1 = FunctionV { blocks: f0.blocks.update(0, b_cmp), next_reg: 1, ..f0 };
    let m2v = crate::ir::ModuleV {
        functions: active(s2t).functions.update(fidx as int, f1),
        ..active(s2t)
    };
    let s3v = crate::codegen::with_active(s2t, m2v);
    assert(active(s2t).functions[fidx as int] == f0);
    assert(crate::codegen::spec_emit(s2t, cmp) == Some((s3v, 0usize)));
    // three fresh blocks on the last function
    let f2 = crate::codegen::spec_append_block(
        crate::codegen::spec_append_block(crate::codegen::spec_append_block(f1, "then"@), "else"@),
        "ifcont"@,
    );
    let s4v = crate::codegen::with_active(
        s3v,
        crate::ir::ModuleV { functions: active(s3v).functions.update(fidx as int, f2), ..active(s3v) },
    );
    let b_cbr = crate::ir::BlockV {
        terminator: Some(TermV::CondBr { cond: OperandV::Reg(0), then_blk: 1, else_blk: 2 }),
        ..b_cmp
    };
    let f3 = FunctionV { blocks: f2.blocks.update(0, b_cbr), ..f2 };
    let s5v = crate::codegen::with_active(
        s4v,
        crate::ir::ModuleV { functions: active(s4v).functions.update(fidx as int, f3), ..active(s4v) },
    );
    assert(f2.blocks[0] == b_cmp);
    assert(crate::codegen::spec_terminate(
        s4v,
        TermV::CondBr { cond: OperandV::Reg(0), then_blk: 1, else_blk: 2 },
    ) == Some(s5v));
    let s6v = CgV {
        cursor: Some(crate::codegen::Cursor { in_core: ic, func: fidx, block: 1 }),
        ..s5v
    };
    let b_then = crate::ir::BlockV {
        label: "then"@,
        instrs: Seq::empty(),
        terminator: Some(TermV::Br(3)),
    };
    let f4 = FunctionV { blocks: f3.blocks.update(1, b_then), ..f3 };
    let s7v = crate::codegen::with_active(
        s6v,
        crate::ir::ModuleV { functions: active(s6v).functions.update(fidx as int, f4), ..active(s6v) },
    );
    assert(f3.blocks[1] == (crate::ir::BlockV {
        label: "then"@,
        instrs: Seq::empty(),
        terminator: None,
    }));
    assert(crate::codegen::spec_terminate(s6v, TermV::Br(3)) == Some(s7v));
    let s8v = CgV {
        cursor: Some(crate::codegen::Cursor { in_core: ic, func: fidx, block: 2 }),
        ..s7v
    };
    // the false branch binds its literal inside the else block's state
    assert(active(s8v).globals == g1);
    let s9v = crate::codegen::with_active(
        s8v,
        crate::ir::ModuleV { globals: g1.push(ge), ..active(s8v) },
    );
    assert(crate::codegen::spec_compile_literal_global(s8v, y) == (
        s9v,
        Ok::<CompiledV, ErrorV>(CompiledV::Val { op: OperandV::Global(ename), ty: crate::ir::IrType::Ptr }),
    ));
    let b_else = crate::ir::BlockV {
        label: "else"@,
        instrs: Seq::empty(),
        terminator: Some(TermV::Br(3)),
    };
    let f5 = FunctionV { blocks: f4.blocks.update(2, b_else), ..f4 };
    let s10v = crate::codegen::with_active(
        s9v,
        crate::ir::ModuleV { functions: active(s9v).functions.update(fidx as int, f5), ..active(s9v) },
    );
    assert(active(s9v).functions[fidx as int] == f4);
    assert(f4.blocks[2] == (crate::ir::BlockV {
        label: "else"@,
        instrs: Seq::empty(),
        terminator: None,
    }));
    assert(crate::codegen::spec_terminate(s9v, TermV::Br(3)) == Some(s10v));
    let s11v = CgV {
        cursor: Some(crate::codegen::Cursor { in_core: ic, func: fidx, block: 3 }),
        ..s10v
    };
    let phi = InstrV::Phi {
        ty: crate::ir::IrType::Ptr,
        incoming: seq![(OperandV::Global(tname), 1usize), (OperandV::Global(ename), 2usize)],
    };
    let b_phi = crate::ir::BlockV {
        label: "ifcont"@,
        instrs: seq![(1usize, phi)],
        terminator: None,
    };
    let f6 = FunctionV { blocks: f5.blocks.update(3, b_phi), next_reg: 2, ..f5 };
    let s12v = crate::codegen::with_active(
        s11v,
        crate::ir::ModuleV {
            functions: active(s11v).functions.update(fidx as int, f6),
            ..active(s11v)
        },
    );
    assert(f5.blocks[3] == (crate::ir::BlockV {
        label: "ifcont"@,
        instrs: Seq::empty(),
        terminator: None,
    }));
    assert(f5.blocks[3].instrs.push((1usize, phi)) =~= seq![(1usize, phi)]);
    assert(crate::codegen::spec_emit(s11v, phi) == Some((s12v, 1usize)));
    assert(crate::codegen::spec_compile_conditional_blocks(
        s3v,
        AstV::Str(y),
        OperandV::Global(tname),
        crate::ir::IrType::Ptr,
        0usize,
    ) == (s12v, Ok::<CompiledV, ErrorV>(CompiledV::Val {
        op: OperandV::Reg(1),
        ty: crate::ir::IrType::Ptr,
    })));
    assert(crate::codegen::spec_compile_conditional(
        s2v,
        AstV::Boolean(b),
        AstV::Str(x),
        AstV::Str(y),
    ) == (s12v, Ok::<CompiledV, ErrorV>(CompiledV::Val {
        op: OperandV::Reg(1),
        ty: crate::ir::IrType::Ptr,
    })));
    assert(spec_compile_node(s2v, body) == (s12v, Ok::<CompiledV, ErrorV>(CompiledV::Val {
        op: OperandV::Reg(1),
        ty: crate::ir::IrType::Ptr,
    })));
    let b_ret = crate::ir::BlockV { terminator: Some(TermV::Ret(OperandV::Reg(1))), ..b_phi };
    let f7 = FunctionV { blocks: f6.blocks.update(3, b_ret), ..f6 };
    let s13v = crate::codegen::with_active(
        s12v,
        crate::ir::ModuleV {
            functions: active(s12v).functions.update(fidx as int, f7),
            ..active(s12v)
        },
    );
    assert(f6.blocks[3] == b_phi);
    assert(crate::codegen::spec_terminate(s12v, TermV::Ret(OperandV::Reg(1))) == Some(s13v));
    let (s2, r) = spec_compile_node(s, node);
    assert(r is Ok);
    assert(s2.module =~~= s13v.module);
    assert(s2.core =~~= s13v.core);
    let fin = cond_str_compiled_fn(fname, b, tname, ename);
    assert(f7 =~~= fin);
    assert(active(s2).functions =~~= am0.functions.push(fin));
    assert(active(s2).globals =~~= g1.push(ge));
}

/// Conditional merge, pointer branches: both string literals are bound to
/// fresh, distinct globals; the executed conditional yields the address of
/// the chosen branch's global, whose text is that branch's literal.
#[verifier::rlimit(100)]
#[verifier::spinoff_prover]
pub proof fn lemma_conditional_merge_ptr(
    s: CgV,
    fname: Seq<char>,
    b: bool,
    x: Seq<char>,
    y: Seq<char>,
    fuel: nat,
)
    requires
        find_function(active(s).functions, fname) is None,
        active(s).functions.len() < usize::MAX,
        fuel >= 2,
    ensures
        ({
            let (s2, r) = spec_compile_node(s, conditional_str_fn_ast(fname, b, x, y));
            let g0 = active(s).globals;
            let tname = crate::text::dec_seq(crate::codegen::first_free(g0));
            let g1 = g0.push(crate::ir::GlobalV { name: tname, text: x });
            let ename = crate::text::dec_seq(crate::codegen::first_free(g1));
            &&& r is Ok
            &&& tname != ename
            &&& active(s2).globals == g1.push(crate::ir::GlobalV { name: ename, text: y })
            &&& run_function(active(s2), fname, Seq::empty(), fuel) == Some(
                RuntimeV::GlobalPtr(
                    if b {
                        tname
                    } else {
                        ename
                    },
                ),
            )
        }),
{
    reveal_with_fuel(crate::eval::eval_fn, 2);
    reveal_with_fuel(crate::eval::eval_block, 4);
    reveal_with_fuel(crate::eval::eval_instrs, 3);
    reveal_with_fuel(crate::eval::eval_instr, 2);
    reveal_with_fuel(crate::eval::phi_pick, 3);
    lemma_conditional_str_compile(s, fname, b, x, y);
    let (s2, r) = spec_compile_node(s, conditional_str_fn_ast(fname, b, x, y));
    let g0 = active(s).globals;
    let tname = crate::text::dec_seq(crate::codegen::first_free(g0));
    let g1 = g0.push(crate::ir::GlobalV { name: tname, text: x });
    let ename = crate::text::dec_seq(crate::codegen::first_free(g1));
    crate::codegen::lemma_first_free_props(g1, 0);
    assert(g1[g1.len() - 1].name == tname);
    assert(tname != ename) by {
        if tname == ename {
            assert(crate::ir::global_named(g1, ename));
        }
    }
    let fidx = active(s).functions.len() as usize;
    let fin = cond_str_compiled_fn(fname, b, tname, ename);
    lemma_find_function_push(active(s).functions, fin);
    assert(find_function(active(s2).functions, fname) == Some(fidx as int));
    let mm = active(s2);
    let frame0 = init_frame(fin, Seq::empty());
    assert(frame0.regs.len() == 2);
    let frame1 = crate::eval::set_reg(frame0, 0, RuntimeV::Bool(b == true)).unwrap();
    let b_cbr = fin.blocks[0];
    let b_ret = fin.blocks[3];
    assert(b_cbr.instrs.drop_first().len() == 0);
    assert(crate::eval::eval_instrs(mm, frame0, b_cbr.instrs, None, fuel) == Some(frame1));
    assert(frame1.regs[0] == Some(RuntimeV::Bool(b)));
    let pred: usize = if b {
        1
    } else {
        2
    };
    let expected = RuntimeV::GlobalPtr(
        if b {
            tname
        } else {
            ename
        },
    );
    let fuel1 = (fuel - 1) as nat;
    let fuel2 = (fuel - 2) as nat;
    let picked = if b {
        OperandV::Global(tname)
    } else {
        OperandV::Global(ename)
    };
    let phi = b_ret.instrs[0].1;
    assert(crate::eval::phi_pick(phi->incoming, pred) == Some(picked)) by {
        assert(phi->incoming.drop_first() =~= seq![(OperandV::Global(ename), 2usize)]);
    }
    let frame2 = crate::eval::set_reg(frame1, 1, expected).unwrap();
    assert(crate::eval::eval_instr(mm, frame1, 1usize, phi, Some(pred), fuel2) == Some(frame2));
    assert(b_ret.instrs.drop_first().len() == 0);
    assert(crate::eval::eval_instrs(mm, frame1, b_ret.instrs, Some(pred), fuel2) == Some(frame2));
    assert(frame2.regs[1] == Some(expected));
    assert(crate::eval::eval_block(mm, fin, 3, Some(pred), frame1, fuel2) == Some(expected));
    assert(fin.blocks[pred as int].instrs.len() == 0);
    assert(crate::eval::eval_block(mm, fin, pred, Some(0), frame1, fuel1) == Some(expected));
    assert(crate::eval::eval_block(mm, fin, 0, None, frame0, fuel) == Some(expected));
    assert(eval_fn(mm, fidx as int, Seq::empty(), fuel) == Some(expected));
}

/// After a fresh bootstrap over an empty core source, the linked primary
/// module holds the output primitives and the six built-in operators, each
/// findable under its name.
pub proof fn lemma_fresh_bootstrap_builtins()
    ensures
        ({
            let (s2, r) = crate::codegen::spec_bootstrap(crate::codegen::spec_init(), Seq::empty());
            &&& r is Ok
            &&& s2.module.functions.len() == 8
            &&& s2.module.functions[2] == builtin_bool_eq()
            &&& s2.module.functions[3] == builtin_int_eq()
            &&& s2.module.functions[4] == builtin_add()
            &&& s2.module.functions[5] == builtin_sub()
            &&& s2.module.functions[6] == builtin_mul()
            &&& s2.module.functions[7] == builtin_div()
            &&& find_function(s2.module.functions, "bool_eq"@) == Some(2int)
            &&& find_function(s2.module.functions, "=="@) == Some(3int)
            &&& find_function(s2.module.functions, "+"@) == Some(4int)
            &&& find_function(s2.module.functions, "-"@) == Some(5int)
            &&& find_function(s2.module.functions, "*"@) == Some(6int)
            &&& find_function(s2.module.functions, "/"@) == Some(7int)
        }),
{
    reveal_with_fuel(find_function, 9);
    reveal_with_fuel(crate::codegen::spec_compile_nodes, 2);
    proof_strlits();
    let s0 = crate::codegen::spec_init();
    let s1 = crate::codegen::spec_install_builtins(s0);
    assert(s1.module.functions =~= seq![
        crate::codegen::extern_fn("puts"@, false),
        crate::codegen::extern_fn("printf"@, true),
        builtin_bool_eq(),
    ]);
    assert(s1.core.functions =~= seq![
        builtin_int_eq(),
        builtin_add(),
        builtin_sub(),
        builtin_mul(),
        builtin_div(),
    ]);
    let (s2c, rc) = crate::codegen::spec_compile_nodes(s1, Seq::empty());
    assert(s2c == s1);
    assert(crate::codegen::names_disjoint(s1.module, s1.core));
    let (s2, r) = crate::codegen::spec_bootstrap(s0, Seq::empty());
    assert(s2.module.functions =~= s1.module.functions + s1.core.functions);
    assert(s2.module.functions.len() == 8);
    assert(s2.module.functions.drop_first() =~= s1.module.functions.drop_first()
        + s1.core.functions);
}

/// Reveals the names the bootstrap uses, so that their pairwise
/// distinctness is decidable.
proof fn proof_strlits()
    ensures
        "puts"@ != "printf"@,
        "puts"@ != "bool_eq"@,
        "puts"@ != "=="@,
        "puts"@ != "+"@,
        "puts"@ != "-"@,
        "puts"@ != "*"@,
        "puts"@ != "/"@,
        "printf"@ != "bool_eq"@,
        "printf"@ != "=="@,
        "printf"@ != "+"@,
        "printf"@ != "-"@,
        "printf"@ != "*"@,
        "printf"@ != "/"@,
        "bool_eq"@ != "=="@,
        "bool_eq"@ != "+"@,
        "bool_eq"@ != "-"@,
        "bool_eq"@ != "*"@,
        "bool_eq"@ != "/"@,
        "=="@ != "+"@,
        "=="@ != "-"@,
        "=="@ != "*"@,
        "=="@ != "/"@,
        "+"@ != "-"@,
        "+"@ != "*"@,
        "+"@ != "/"@,
        "-"@ != "*"@,
        "-"@ != "/"@,
        "*"@ != "/"@,
        "main"@ != "puts"@,
        "main"@ != "printf"@,
        "main"@ != "bool_eq"@,
        "main"@ != "=="@,
        "main"@ != "+"@,
        "main"@ != "-"@,
        "main"@ != "*"@,
        "main"@ != "/"@,
{
    reveal_strlit("puts");
    reveal_strlit("printf");
    reveal_strlit("bool_eq");
    reveal_strlit("==");
    reveal_strlit("+");
    reveal_strlit("-");
    reveal_strlit("*");
    reveal_strlit("/");
    reveal_strlit("main");
    assert("puts"@.len() == 4);
    assert("printf"@.len() == 6);
    assert("bool_eq"@.len() == 7);
    assert("=="@.len() == 2);
    assert("+"@.len() == 1);
    assert("-"@.len() == 1);
    assert("*"@.len() == 1);
    assert("/"@.len() == 1);
    assert("main"@.len() == 4);
    assert("+"@[0] == '+' && "-"@[0] == '-' && "*"@[0] == '*' && "/"@[0] == '/');
    assert("puts"@[0] == 'p' && "main"@[0] == 'm');
}

/// Bootstrap primitives behave as specified: in the module a fresh
/// bootstrap leaves behind, calling the linked arithmetic and comparison
/// operators computes wrapping addition, subtraction and multiplication,
/// truncating signed division, and integer equality.
pub proof fn lemma_bootstrap_primitives(a: i64, b: i64, fuel: nat)
    ensures
        ({
            let (s2, r) = crate::codegen::spec_bootstrap(crate::codegen::spec_init(), Seq::empty());
            let args = seq![RuntimeV::I64(a), RuntimeV::I64(b)];
            &&& run_function(s2.module, "+"@, args, fuel) == Some(
                RuntimeV::I64(i64_specs::wrapping_add(a, b)),
            )
            &&& run_function(s2.module, "-"@, args, fuel) == Some(
                RuntimeV::I64(i64_specs::wrapping_sub(a, b)),
            )
            &&& run_function(s2.module, "*"@, args, fuel) == Some(
                RuntimeV::I64(i64_specs::wrapping_mul(a, b)),
            )
            &&& run_function(s2.module, "/"@, args, fuel) == (match sdiv_i64(a, b) {
                Some(q) => Some(RuntimeV::I64(q)),
                None => None,
            })
            &&& run_function(s2.module, "=="@, args, fuel) == Some(RuntimeV::Bool(a == b))
        }),
{
    lemma_fresh_bootstrap_builtins();
    let (s2, r) = crate::codegen::spec_bootstrap(crate::codegen::spec_init(), Seq::empty());
    lemma_builtin_add_eval(s2.module, 4, a, b, fuel);
    lemma_builtin_sub_eval(s2.module, 5, a, b, fuel);
    lemma_builtin_mul_eval(s2.module, 6, a, b, fuel);
    lemma_builtin_div_eval(s2.module, 7, a, b, fuel);
    lemma_builtin_int_eq_eval(s2.module, 3, a, b, fuel);
}

} // verus!
