//! Compiler
//!
//! Lowers the abstract syntax tree into the SSA intermediate representation
//! of `crate::ir`. The whole translation is specified by a functional model
//! (`spec_compile_node` and friends) over the mathematical images of the
//! compiler state; every executable method is verified to agree with the
//! model exactly, and the behaviour of the generated code is pinned down by
//! the proofs at the end of this file.
//!
//! The fail-fast posture of the backend is kept by propagating a typed
//! error value out of every fatal path instead of terminating the process;
//! the driver prints the diagnostic and stops.
use crate::ir::{
    find_function, global_named, Block, BlockV, FunctionV, GlobalV, InstrV, IrModule, IrType,
    ModuleV, OperandV, TermV,
};
use crate::parser::ast::{ast_height, ast_list_height, AstNode, AstV, AST};
use crate::text::dec_seq;
use vstd::prelude::*;

verus! {

/// A fatal compilation (or execution) failure. There is no local recovery:
/// every error propagates to the driver unchanged.
#[derive(Debug, PartialEq)]
pub enum CompileError {
    /// An AST node, type or branch combination the backend does not lower.
    UnsupportedConstruct(String),
    /// A call to a name that is neither a parameter of the enclosing
    /// function nor a previously defined function.
    UnresolvedSymbol(String),
    /// Branches or arguments whose representation classes disagree.
    RepresentationMismatch,
    /// The core library failed to parse or compile, or could not be linked.
    BootstrapFailure,
    /// No function named `main` exists at run time.
    MissingEntryPoint,
    /// A second definition under an already-bound function name.
    DuplicateSymbol(String),
    /// The interpreter got stuck or ran out of its step budget.
    ExecutionTrap,
}

/// Mathematical image of a `CompileError`.
#[verifier::ext_equal]
pub enum ErrorV {
    UnsupportedConstruct(Seq<char>),
    UnresolvedSymbol(Seq<char>),
    RepresentationMismatch,
    BootstrapFailure,
    MissingEntryPoint,
    DuplicateSymbol(Seq<char>),
    ExecutionTrap,
}

impl View for CompileError {
    type V = ErrorV;

    open spec fn view(&self) -> ErrorV {
        match self {
            CompileError::UnsupportedConstruct(s) => ErrorV::UnsupportedConstruct(s@),
            CompileError::UnresolvedSymbol(s) => ErrorV::UnresolvedSymbol(s@),
            CompileError::RepresentationMismatch => ErrorV::RepresentationMismatch,
            CompileError::BootstrapFailure => ErrorV::BootstrapFailure,
            CompileError::MissingEntryPoint => ErrorV::MissingEntryPoint,
            CompileError::DuplicateSymbol(s) => ErrorV::DuplicateSymbol(s@),
            CompileError::ExecutionTrap => ErrorV::ExecutionTrap,
        }
    }
}

/// Where the single instruction cursor stands: a block of a function of
/// either the primary or the bootstrap module.
#[derive(Debug, Clone, Copy, PartialEq, Eq, Structural)]
pub struct Cursor {
    pub in_core: bool,
    pub func: usize,
    pub block: usize,
}

/// What lowering one AST node yields: an SSA operand with its
/// representation class, or a handle to a function definition.
#[derive(Debug)]
pub enum CompiledValue {
    Val { op: crate::ir::Operand, ty: IrType },
    Func { in_core: bool, index: usize },
}

/// Mathematical image of a `CompiledValue`.
#[verifier::ext_equal]
pub enum CompiledV {
    Val { op: OperandV, ty: IrType },
    Func { in_core: bool, index: usize },
}

impl View for CompiledValue {
    type V = CompiledV;

    open spec fn view(&self) -> CompiledV {
        match self {
            CompiledValue::Val { op, ty } => CompiledV::Val { op: op@, ty: *ty },
            CompiledValue::Func { in_core, index } => CompiledV::Func {
                in_core: *in_core,
                index: *index,
            },
        }
    }
}

/// Mathematical image of the compiler state.
#[verifier::ext_equal]
pub struct CgV {
    pub module: ModuleV,
    pub core: ModuleV,
    pub in_core: bool,
    pub scope: Seq<(Seq<char>, usize, IrType)>,
    pub cursor: Option<Cursor>,
}

/// The compilation unit: the primary module, the bootstrap module that
/// exists until it is linked in, the single-frame scope of the function
/// being compiled, and the instruction cursor.
pub struct CodeGen {
    module: IrModule,
    core: IrModule,
    in_core: bool,
    scope: Vec<(String, usize, IrType)>,
    cursor: Option<Cursor>,
}

impl View for CodeGen {
    type V = CgV;

    closed spec fn view(&self) -> CgV {
        CgV {
            module: self.module@,
            core: self.core@,
            in_core: self.in_core,
            scope: Seq::new(
                self.scope@.len(),
                |i: int| (self.scope@[i].0@, self.scope@[i].1, self.scope@[i].2),
            ),
            cursor: self.cursor,
        }
    }
}

// ---------------------------------------------------------------------------
// The functional model of the code generator.
// ---------------------------------------------------------------------------
/// The module that new functions and globals go to.
pub open spec fn active(s: CgV) -> ModuleV {
    if s.in_core {
        s.core
    } else {
        s.module
    }
}

/// Replaces the active module.
pub open spec fn with_active(s: CgV, m: ModuleV) -> CgV {
    if s.in_core {
        CgV { core: m, ..s }
    } else {
        CgV { module: m, ..s }
    }
}

/// The first scope binding of `name`: its parameter index and class.
pub open spec fn scope_lookup(
    scope: Seq<(Seq<char>, usize, IrType)>,
    name: Seq<char>,
) -> Option<(usize, IrType)>
    decreases scope.len(),
{
    if scope.len() == 0 {
        None
    } else if scope[0].0 == name {
        Some((scope[0].1, scope[0].2))
    } else {
        scope_lookup(scope.drop_first(), name)
    }
}

/// The function a call resolves to: the active module first, then the
/// primary module while the bootstrap module is active.
pub open spec fn lookup_callee(s: CgV, name: Seq<char>) -> Option<FunctionV> {
    match find_function(active(s).functions, name) {
        Some(i) => Some(active(s).functions[i]),
        None => if s.in_core {
            match find_function(s.module.functions, name) {
                Some(i) => Some(s.module.functions[i]),
                None => None,
            }
        } else {
            None
        },
    }
}

/// The linear scan for a fresh global name: the first `k` at or above
/// `start`, within `tries` steps, whose decimal rendering is unbound.
pub open spec fn first_free_from(globals: Seq<GlobalV>, start: nat, tries: nat) -> nat
    decreases tries,
{
    if tries == 0 {
        start
    } else if !global_named(globals, dec_seq(start)) {
        start
    } else {
        first_free_from(globals, (start + 1) as nat, (tries - 1) as nat)
    }
}

/// The number whose decimal rendering is the first free global name.
pub open spec fn first_free(globals: Seq<GlobalV>) -> nat {
    first_free_from(globals, 0, (globals.len() + 1) as nat)
}

/// Appends one instruction at the cursor; `None` when there is no cursor,
/// it is out of range, the block is already closed, or the register
/// counter is exhausted.
pub open spec fn spec_emit(s: CgV, instr: InstrV) -> Option<(CgV, usize)> {
    match s.cursor {
        None => None,
        Some(c) => {
            let m = if c.in_core {
                s.core
            } else {
                s.module
            };
            if c.func < m.functions.len() && c.block < m.functions[c.func as int].blocks.len() {
                let f = m.functions[c.func as int];
                let b = f.blocks[c.block as int];
                if b.terminator is None && f.next_reg < usize::MAX {
                    let id = f.next_reg;
                    let b2 = BlockV { instrs: b.instrs.push((id, instr)), ..b };
                    let f2 = FunctionV {
                        blocks: f.blocks.update(c.block as int, b2),
                        next_reg: (f.next_reg + 1) as usize,
                        ..f
                    };
                    let m2 = ModuleV { functions: m.functions.update(c.func as int, f2), ..m };
                    if c.in_core {
                        Some((CgV { core: m2, ..s }, id))
                    } else {
                        Some((CgV { module: m2, ..s }, id))
                    }
                } else {
                    None
                }
            } else {
                None
            }
        },
    }
}

/// Closes the cursor block with a terminator; `None` when there is no
/// open block under the cursor.
pub open spec fn spec_terminate(s: CgV, t: TermV) -> Option<CgV> {
    match s.cursor {
        None => None,
        Some(c) => {
            let m = if c.in_core {
                s.core
            } else {
                s.module
            };
            if c.func < m.functions.len() && c.block < m.functions[c.func as int].blocks.len() {
                let f = m.functions[c.func as int];
                let b = f.blocks[c.block as int];
                if b.terminator is None {
                    let b2 = BlockV { terminator: Some(t), ..b };
                    let f2 = FunctionV { blocks: f.blocks.update(c.block as int, b2), ..f };
                    let m2 = ModuleV { functions: m.functions.update(c.func as int, f2), ..m };
                    if c.in_core {
                        Some(CgV { core: m2, ..s })
                    } else {
                        Some(CgV { module: m2, ..s })
                    }
                } else {
                    None
                }
            } else {
                None
            }
        },
    }
}

/// Appends a fresh, open block with this label to the function.
pub open spec fn spec_append_block(f: FunctionV, label: Seq<char>) -> FunctionV {
    FunctionV {
        blocks: f.blocks.push(BlockV { label, instrs: Seq::empty(), terminator: None }),
        ..f
    }
}

/// The diagnostic for a value of function kind used where a scalar is
/// needed.
pub open spec fn msg_func_value() -> Seq<char> {
    "a function used as a value"@
}

/// The diagnostic for lowering an expression with no open block to hold
/// its code.
pub open spec fn msg_no_insert_point() -> Seq<char> {
    "an expression outside a function"@
}

/// The diagnostic for a conditional compiled while the cursor is not in
/// the last function of the module.
pub open spec fn msg_cond_outside() -> Seq<char> {
    "a conditional outside the function under construction"@
}

/// The diagnostic for a declared type outside the supported classes.
pub open spec fn msg_bad_type() -> Seq<char> {
    "an unsupported declared type"@
}

/// The diagnostic for a parameter whose name is not an identifier.
pub open spec fn msg_param_name() -> Seq<char> {
    "a parameter without a plain name"@
}

/// The diagnostic for a function definition without a parameter list.
pub open spec fn msg_fn_args() -> Seq<char> {
    "a function without a parameter list"@
}

/// The diagnostic for the node kinds the backend does not lower.
pub open spec fn msg_unsupported_node(node: AstV) -> Seq<char> {
    match node {
        AstV::List(_) => "list expressions"@,
        AstV::Type(_) => "a bare type expression"@,
        AstV::FnArgs(_) => "a bare parameter list"@,
        AstV::ModuleImport(_) => "module imports"@,
        AstV::ModuleDeclaration(_) => "module declarations"@,
        AstV::Module(_) => "module names"@,
        AstV::Enum { .. } => "enum declarations"@,
        AstV::AnonFn { .. } => "anonymous functions"@,
        AstV::Eoi => "the end of input marker"@,
        _ => "an unsupported expression"@,
    }
}

/// The representation class a declared type lowers to.
pub open spec fn spec_compile_type(t: AstV) -> Result<IrType, ErrorV> {
    match t {
        AstV::Type(name) => if name == "i64"@ {
            Ok(IrType::I64)
        } else if name == "bool"@ {
            Ok(IrType::I1)
        } else if name == "str"@ || name == "char"@ {
            Ok(IrType::Ptr)
        } else {
            Err(ErrorV::UnsupportedConstruct(msg_bad_type()))
        },
        _ => Err(ErrorV::UnsupportedConstruct(msg_bad_type())),
    }
}

/// The parameter list of a function definition: each pair must bind one
/// plain name to one supported type.
pub open spec fn spec_param_list(pairs: Seq<(AstV, AstV)>) -> Result<
    Seq<(Seq<char>, IrType)>,
    ErrorV,
>
    decreases pairs.len(),
{
    if pairs.len() == 0 {
        Ok(Seq::empty())
    } else {
        match pairs[0].0 {
            AstV::Identifier { name, args: _ } => match spec_compile_type(pairs[0].1) {
                Err(e) => Err(e),
                Ok(ty) => match spec_param_list(pairs.drop_first()) {
                    Err(e) => Err(e),
                    Ok(rest) => Ok(seq![(name, ty)] + rest),
                },
            },
            _ => Err(ErrorV::UnsupportedConstruct(msg_param_name())),
        }
    }
}

/// The scope a function body is compiled in: each parameter name bound to
/// its position and class.
pub open spec fn scope_of_params(params: Seq<(Seq<char>, IrType)>) -> Seq<
    (Seq<char>, usize, IrType),
> {
    Seq::new(params.len(), |i: int| (params[i].0, i as usize, params[i].1))
}

/// Whether a list of argument classes fits a callee's signature: exact
/// arity and classes, with extra arguments allowed after the declared
/// parameters of a variadic callee.
pub open spec fn args_match(f: FunctionV, tys: Seq<IrType>) -> bool {
    &&& if f.variadic {
        tys.len() >= f.params.len()
    } else {
        tys.len() == f.params.len()
    }
    &&& forall|i: int| 0 <= i < f.params.len() ==> tys[i] == f.params[i].1
}

/// Lowers one AST node. Returns the new state and the node's value, or
/// the state at the failure point and the fatal error.
pub open spec fn spec_compile_node(s: CgV, node: AstV) -> (CgV, Result<CompiledV, ErrorV>)
    decreases ast_height(node), 0int,
{
    match node {
        AstV::Int(n) => (s, Ok(CompiledV::Val { op: OperandV::ConstI64(n), ty: IrType::I64 })),
        AstV::Boolean(b) => (s, Ok(CompiledV::Val { op: OperandV::ConstBool(b), ty: IrType::I1 })),
        AstV::Str(x) => spec_compile_literal_global(s, x),
        AstV::Char(c) => spec_compile_literal_global(s, seq![c]),
        AstV::Fn { name, return_type, args, value } => spec_compile_function(
            s,
            name,
            *return_type,
            *args,
            *value,
        ),
        AstV::IfElse { condition, stmt_true, stmt_false } => spec_compile_conditional(
            s,
            *condition,
            *stmt_true,
            *stmt_false,
        ),
        AstV::Identifier { name, args } => spec_compile_identifier(s, name, args),
        AstV::InParens(inner) => spec_compile_parens(s, *inner),
        _ => (s, Err(ErrorV::UnsupportedConstruct(msg_unsupported_node(node)))),
    }
}

/// Lowers a string or character literal: a fresh decimal name is scanned
/// for, and the text becomes a NUL-terminated global constant whose
/// address is the literal's value.
pub open spec fn spec_compile_literal_global(s: CgV, text: Seq<char>) -> (
    CgV,
    Result<CompiledV, ErrorV>,
) {
    let name = dec_seq(first_free(active(s).globals));
    let m2 = ModuleV { globals: active(s).globals.push(GlobalV { name, text }), ..active(s) };
    (
        with_active(s, m2),
        Ok(CompiledV::Val { op: OperandV::Global(name), ty: IrType::Ptr }),
    )
}

/// Lowers `name(args...)`: the enclosing function's parameters take
/// priority and ignore the arguments; otherwise the arguments are lowered
/// left to right, the callee must already exist, its signature must fit,
/// and a tail call is emitted.
pub open spec fn spec_compile_identifier(s: CgV, name: Seq<char>, args: Seq<AstV>) -> (
    CgV,
    Result<CompiledV, ErrorV>,
)
    decreases ast_list_height(args), 2int,
{
    match scope_lookup(s.scope, name) {
        Some((idx, ty)) => (s, Ok(CompiledV::Val { op: OperandV::Param(idx), ty })),
        None => {
            let (s1, ra) = spec_compile_args(s, args);
            match ra {
                Err(e) => (s1, Err(e)),
                Ok(compiled) => match lookup_callee(s1, name) {
                    None => (s1, Err(ErrorV::UnresolvedSymbol(name))),
                    Some(f) => if !args_match(
                        f,
                        Seq::new(compiled.len(), |i: int| compiled[i].1),
                    ) {
                        (s1, Err(ErrorV::RepresentationMismatch))
                    } else {
                        match spec_emit(
                            s1,
                            InstrV::Call {
                                callee: name,
                                ret: f.ret,
                                args: Seq::new(compiled.len(), |i: int| compiled[i].0),
                                tail: true,
                            },
                        ) {
                            None => (s1, Err(ErrorV::UnsupportedConstruct(msg_no_insert_point()))),
                            Some((s2, id)) => (
                                s2,
                                Ok(CompiledV::Val { op: OperandV::Reg(id), ty: f.ret }),
                            ),
                        }
                    },
                },
            }
        },
    }
}

/// Lowers an argument list left to right into operands with their
/// classes.
pub open spec fn spec_compile_args(s: CgV, args: Seq<AstV>) -> (
    CgV,
    Result<Seq<(OperandV, IrType)>, ErrorV>,
)
    decreases ast_list_height(args), 1int,
{
    if args.len() == 0 {
        (s, Ok(Seq::empty()))
    } else {
        let (s1, r1) = spec_compile_node(s, args[0]);
        match r1 {
            Err(e) => (s1, Err(e)),
            Ok(CompiledV::Func { .. }) => (
                s1,
                Err(ErrorV::UnsupportedConstruct(msg_func_value())),
            ),
            Ok(CompiledV::Val { op, ty }) => {
                let (s2, r2) = spec_compile_args(s1, args.drop_first());
                match r2 {
                    Err(e) => (s2, Err(e)),
                    Ok(rest) => (s2, Ok(seq![(op, ty)] + rest)),
                }
            },
        }
    }
}

/// Lowers a parenthesized expression: the inner value is materialized
/// through a dedicated stack slot (alloca, store, reload), an indirection
/// whose net effect is the identity on the value.
pub open spec fn spec_compile_parens(s: CgV, inner: AstV) -> (CgV, Result<CompiledV, ErrorV>)
    decreases ast_height(inner), 1int,
{
    let (s1, r1) = spec_compile_node(s, inner);
    match r1 {
        Err(e) => (s1, Err(e)),
        Ok(CompiledV::Func { .. }) => (s1, Err(ErrorV::UnsupportedConstruct(msg_func_value()))),
        Ok(CompiledV::Val { op, ty }) => match spec_emit(s1, InstrV::Alloca(ty)) {
            None => (s1, Err(ErrorV::UnsupportedConstruct(msg_no_insert_point()))),
            Some((s2, a_id)) => match spec_emit(
                s2,
                InstrV::Store { value: op, ptr: OperandV::Reg(a_id) },
            ) {
                None => (s2, Err(ErrorV::UnsupportedConstruct(msg_no_insert_point()))),
                Some((s3, _store_id)) => match spec_emit(
                    s3,
                    InstrV::Load { ty, ptr: OperandV::Reg(a_id) },
                ) {
                    None => (s3, Err(ErrorV::UnsupportedConstruct(msg_no_insert_point()))),
                    Some((s4, l_id)) => (
                        s4,
                        Ok(CompiledV::Val { op: OperandV::Reg(l_id), ty }),
                    ),
                },
            },
        },
    }
}

/// Lowers a conditional: true branch and condition first, a signed
/// equality against the boolean-true constant, three fresh blocks on the
/// last function of the active module, the false branch inside the else
/// block, and a phi in the continuation merging the two branch values,
/// which must share one representation class.
pub open spec fn spec_compile_conditional(
    s: CgV,
    condition: AstV,
    stmt_true: AstV,
    stmt_false: AstV,
) -> (CgV, Result<CompiledV, ErrorV>)
    decreases ast_height(condition) + ast_height(stmt_true) + ast_height(stmt_false), 2int,
{
    let (s1, r1) = spec_compile_node(s, stmt_true);
    match r1 {
        Err(e) => (s1, Err(e)),
        Ok(CompiledV::Func { .. }) => (s1, Err(ErrorV::UnsupportedConstruct(msg_func_value()))),
        Ok(CompiledV::Val { op: t_op, ty: t_ty }) => {
            let (s2, r2) = spec_compile_node(s1, condition);
            match r2 {
                Err(e) => (s2, Err(e)),
                Ok(CompiledV::Func { .. }) => (
                    s2,
                    Err(ErrorV::UnsupportedConstruct(msg_func_value())),
                ),
                Ok(CompiledV::Val { op: c_op, ty: c_ty }) => {
                    if c_ty != IrType::I1 {
                        (s2, Err(ErrorV::RepresentationMismatch))
                    } else {
                        match spec_emit(s2, InstrV::CmpEq(c_op, OperandV::ConstBool(true))) {
                            None => (s2, Err(ErrorV::UnsupportedConstruct(msg_no_insert_point()))),
                            Some((s3, cmp_id)) => spec_compile_conditional_blocks(
                                s3,
                                stmt_false,
                                t_op,
                                t_ty,
                                cmp_id,
                            ),
                        }
                    }
                },
            }
        },
    }
}

/// The block surgery of a conditional, after the comparison was emitted.
pub open spec fn spec_compile_conditional_blocks(
    s3: CgV,
    stmt_false: AstV,
    t_op: OperandV,
    t_ty: IrType,
    cmp_id: usize,
) -> (CgV, Result<CompiledV, ErrorV>)
    decreases ast_height(stmt_false), 1int,
{
    let am = active(s3);
    let cursor_ok = match s3.cursor {
        Some(c) => c.in_core == s3.in_core && c.func + 1 == am.functions.len(),
        None => false,
    };
    if am.functions.len() == 0 || !cursor_ok {
        (s3, Err(ErrorV::UnsupportedConstruct(msg_cond_outside())))
    } else {
        let lf = (am.functions.len() - 1) as usize;
        let f = am.functions[lf as int];
        let then_i = f.blocks.len() as usize;
        let else_i = (f.blocks.len() + 1) as usize;
        let cont_i = (f.blocks.len() + 2) as usize;
        if f.blocks.len() + 2 >= usize::MAX {
            (s3, Err(ErrorV::UnsupportedConstruct(msg_cond_outside())))
        } else {
            let f2 = spec_append_block(
                spec_append_block(spec_append_block(f, "then"@), "else"@),
                "ifcont"@,
            );
            let s4 = with_active(s3, ModuleV { functions: am.functions.update(lf as int, f2), ..am });
            match spec_terminate(
                s4,
                TermV::CondBr { cond: OperandV::Reg(cmp_id), then_blk: then_i, else_blk: else_i },
            ) {
                None => (s4, Err(ErrorV::UnsupportedConstruct(msg_no_insert_point()))),
                Some(s5) => {
                    let s6 = CgV {
                        cursor: Some(Cursor { in_core: s5.in_core, func: lf, block: then_i }),
                        ..s5
                    };
                    match spec_terminate(s6, TermV::Br(cont_i)) {
                        None => (s6, Err(ErrorV::UnsupportedConstruct(msg_no_insert_point()))),
                        Some(s7) => {
                            let s8 = CgV {
                                cursor: Some(
                                    Cursor { in_core: s7.in_core, func: lf, block: else_i },
                                ),
                                ..s7
                            };
                            let (s9, r3) = spec_compile_node(s8, stmt_false);
                            match r3 {
                                Err(e) => (s9, Err(e)),
                                Ok(CompiledV::Func { .. }) => (
                                    s9,
                                    Err(ErrorV::UnsupportedConstruct(msg_func_value())),
                                ),
                                Ok(CompiledV::Val { op: f_op, ty: f_ty }) => {
                                    match s9.cursor {
                                        None => (
                                            s9,
                                            Err(
                                                ErrorV::UnsupportedConstruct(
                                                    msg_no_insert_point(),
                                                ),
                                            ),
                                        ),
                                        Some(c9) => {
                                            let else_exit = c9.block;
                                            match spec_terminate(s9, TermV::Br(cont_i)) {
                                                None => (
                                                    s9,
                                                    Err(
                                                        ErrorV::UnsupportedConstruct(
                                                            msg_no_insert_point(),
                                                        ),
                                                    ),
                                                ),
                                                Some(s10) => {
                                                    if f_ty != t_ty {
                                                        (s10, Err(ErrorV::RepresentationMismatch))
                                                    } else {
                                                        let s11 = CgV {
                                                            cursor: Some(
                                                                Cursor {
                                                                    in_core: s10.in_core,
                                                                    func: lf,
                                                                    block: cont_i,
                                                                },
                                                            ),
                                                            ..s10
                                                        };
                                                        match spec_emit(
                                                            s11,
                                                            InstrV::Phi {
                                                                ty: t_ty,
                                                                incoming: seq![
                                                                    (t_op, then_i),
                                                                    (f_op, else_exit),
                                                                ],
                                                            },
                                                        ) {
                                                            None => (
                                                                s11,
                                                                Err(
                                                                    ErrorV::UnsupportedConstruct(
                                                                        msg_no_insert_point(),
                                                                    ),
                                                                ),
                                                            ),
                                                            Some((s12, phi_id)) => (
                                                                s12,
                                                                Ok(
                                                                    CompiledV::Val {
                                                                        op: OperandV::Reg(phi_id),
                                                                        ty: t_ty,
                                                                    },
                                                                ),
                                                            ),
                                                        }
                                                    }
                                                },
                                            }
                                        },
                                    }
                                },
                            }
                        },
                    }
                },
            }
        }
    }
}

/// Lowers a function definition: signature from the declared classes,
/// registration under the source name (duplicates are fatal), one entry
/// block, parameters bound in a fresh scope, the body lowered, and a
/// single return of the body's value coerced to the declared class.
pub open spec fn spec_compile_function(
    s: CgV,
    name: Seq<char>,
    return_type: AstV,
    args: AstV,
    value: AstV,
) -> (CgV, Result<CompiledV, ErrorV>)
    decreases ast_height(value), 1int,
{
    match args {
        AstV::FnArgs(pairs) => match spec_compile_type(return_type) {
            Err(e) => (s, Err(e)),
            Ok(ret_ty) => match spec_param_list(pairs) {
                Err(e) => (s, Err(e)),
                Ok(params) => {
                    if find_function(active(s).functions, name) is Some {
                        (s, Err(ErrorV::DuplicateSymbol(name)))
                    } else {
                        let fidx = active(s).functions.len() as usize;
                        let f = FunctionV {
                            name,
                            params,
                            ret: ret_ty,
                            external: false,
                            variadic: false,
                            blocks: seq![
                                BlockV {
                                    label: "entry"@,
                                    instrs: Seq::empty(),
                                    terminator: None,
                                },
                            ],
                            next_reg: 0,
                        };
                        let s1 = with_active(
                            s,
                            ModuleV { functions: active(s).functions.push(f), ..active(s) },
                        );
                        let s2 = CgV {
                            scope: scope_of_params(params),
                            cursor: Some(Cursor { in_core: s1.in_core, func: fidx, block: 0 }),
                            ..s1
                        };
                        let (s3, rb) = spec_compile_node(s2, value);
                        match rb {
                            Err(e) => (s3, Err(e)),
                            Ok(CompiledV::Func { .. }) => (
                                s3,
                                Err(ErrorV::UnsupportedConstruct(msg_func_value())),
                            ),
                            Ok(CompiledV::Val { op, ty }) => {
                                if ty != ret_ty {
                                    (s3, Err(ErrorV::RepresentationMismatch))
                                } else {
                                    match spec_terminate(s3, TermV::Ret(op)) {
                                        None => (
                                            s3,
                                            Err(
                                                ErrorV::UnsupportedConstruct(
                                                    msg_no_insert_point(),
                                                ),
                                            ),
                                        ),
                                        Some(s4) => (
                                            s4,
                                            Ok(
                                                CompiledV::Func {
                                                    in_core: s.in_core,
                                                    index: fidx,
                                                },
                                            ),
                                        ),
                                    }
                                }
                            },
                        }
                    }
                },
            },
        },
        _ => (s, Err(ErrorV::UnsupportedConstruct(msg_fn_args()))),
    }
}

// ---------------------------------------------------------------------------
// Fresh global names: the linear scan finds a free one within the number of
// globals plus one steps.
// ---------------------------------------------------------------------------
/// Among the candidates `start ..= start + globals.len()` some decimal name
/// is unbound: there are more candidates than globals and decimal renderings
/// of distinct numbers are distinct.
proof fn lemma_free_name_exists(globals: Seq<GlobalV>, start: nat) -> (j: nat)
    ensures
        start <= j <= start + globals.len(),
        !global_named(globals, dec_seq(j)),
    decreases globals.len(),
{
    if !global_named(globals, dec_seq(start)) {
        start
    } else {
        let i0 = choose|i: int| 0 <= i < globals.len() && globals[i].name == dec_seq(start);
        let rest = globals.remove(i0);
        assert(forall|k: int| 0 <= k < i0 ==> rest[k] == globals[k]);
        assert(forall|k: int| i0 <= k < rest.len() ==> rest[k] == globals[k + 1]);
        let j = lemma_free_name_exists(rest, start + 1);
        assert(!global_named(globals, dec_seq(j))) by {
            if global_named(globals, dec_seq(j)) {
                let k = choose|k: int|
                    0 <= k < globals.len() && globals[k].name == dec_seq(j);
                if k == i0 {
                    crate::text::lemma_dec_seq_injective(start, j);
                } else if k < i0 {
                    assert(rest[k] == globals[k]);
                    assert(global_named(rest, dec_seq(j)));
                } else {
                    assert(rest[k - 1] == globals[k]);
                    assert(global_named(rest, dec_seq(j)));
                }
            }
        }
        j
    }
}

/// When a free candidate exists within `tries`, the scan stops at the first
/// free name.
proof fn lemma_first_free_from_props(globals: Seq<GlobalV>, start: nat, tries: nat)
    requires
        exists|j: nat| start <= j < start + tries && !global_named(globals, dec_seq(j)),
    ensures
        ({
            let r = first_free_from(globals, start, tries);
            &&& start <= r < start + tries
            &&& !global_named(globals, dec_seq(r))
            &&& forall|k: nat| start <= k < r ==> global_named(globals, dec_seq(k))
        }),
    decreases tries,
{
    let j0 = choose|j: nat| start <= j < start + tries && !global_named(globals, dec_seq(j));
    assert(tries > 0);
    if !global_named(globals, dec_seq(start)) {
    } else {
        assert(j0 != start);
        assert(start + 1 <= j0 < (start + 1) + (tries - 1));
        lemma_first_free_from_props(globals, (start + 1) as nat, (tries - 1) as nat);
    }
}

/// What the fresh-name scan from `start` yields: the first unbound decimal
/// name at or above `start`.
pub proof fn lemma_first_free_props(globals: Seq<GlobalV>, start: nat)
    ensures
        ({
            let r = first_free_from(globals, start, (globals.len() + 1) as nat);
            &&& start <= r <= start + globals.len()
            &&& !global_named(globals, dec_seq(r))
            &&& forall|k: nat| start <= k < r ==> global_named(globals, dec_seq(k))
        }),
{
    let j = lemma_free_name_exists(globals, start);
    assert(start <= j < start + globals.len() + 1);
    lemma_first_free_from_props(globals, start, (globals.len() + 1) as nat);
}

impl CodeGen {
    /// A reference to the module that new functions and globals go to.
    fn active_ref(&self) -> (r: &IrModule)
        ensures
            r@ == active(self@),
    {
        if self.in_core {
            &self.core
        } else {
            &self.module
        }
    }

    /// How many globals the active module holds.
    fn global_count(&self) -> (r: usize)
        ensures
            r == active(self@).globals.len(),
    {
        if self.in_core {
            self.core.globals.len()
        } else {
            self.module.globals.len()
        }
    }

    /// The first decimal name at or above `name` that is not yet bound as a
    /// global symbol of the active module, found by linear scan.
    fn available_name(&self, name: usize) -> (r: String)
        requires
            name + active(self@).globals.len() <= usize::MAX,
        ensures
            r@ == dec_seq(
                first_free_from(
                    active(self@).globals,
                    name as nat,
                    (active(self@).globals.len() + 1) as nat,
                ),
            ),
    {
        let ghost globals = active(self@).globals;
        proof {
            lemma_first_free_props(globals, name as nat);
        }
        let ghost target = first_free_from(globals, name as nat, (globals.len() + 1) as nat);
        let am = self.active_ref();
        let mut i: usize = name;
        loop
            invariant
                name + globals.len() <= usize::MAX,
                name <= i,
                i as nat <= target,
                am@ == active(self@),
                globals == active(self@).globals,
                target == first_free_from(globals, name as nat, (globals.len() + 1) as nat),
                target <= name + globals.len(),
                !global_named(globals, dec_seq(target)),
                forall|k: nat| name <= k < target ==> global_named(globals, dec_seq(k)),
            decreases target - i,
        {
            let candidate = crate::text::u64_to_string(i as u64);
            if !am.has_global(candidate.as_str()) {
                proof {
                    assert(i as nat == target) by {
                        if (i as nat) < target {
                            assert(global_named(globals, dec_seq(i as nat)));
                        }
                    }
                }
                return candidate;
            }
            proof {
                assert((i as nat) < target) by {
                    assert(global_named(globals, dec_seq(i as nat)));
                }
            }
            i = i + 1;
        }
    }

    /// Adds a global constant to the active module.
    fn push_global(&mut self, g: crate::ir::GlobalDef)
        ensures
            final(self)@ == with_active(
                old(self)@,
                ModuleV {
                    globals: active(old(self)@).globals.push(g@),
                    ..active(old(self)@)
                },
            ),
    {
        if self.in_core {
            self.core.globals.push(g);
        } else {
            self.module.globals.push(g);
        }
        proof {
            assert(active(final(self)@).globals =~= active(old(self)@).globals.push(g@));
            assert(active(final(self)@).functions =~= active(old(self)@).functions);
            assert(final(self)@ == with_active(
                old(self)@,
                ModuleV {
                    globals: active(old(self)@).globals.push(g@),
                    ..active(old(self)@)
                },
            ));
        }
    }

    /// Adds a function to the active module.
    fn push_function(&mut self, f: crate::ir::IrFunction)
        ensures
            final(self)@ == with_active(
                old(self)@,
                ModuleV {
                    functions: active(old(self)@).functions.push(f@),
                    ..active(old(self)@)
                },
            ),
    {
        if self.in_core {
            self.core.functions.push(f);
        } else {
            self.module.functions.push(f);
        }
        proof {
            assert(active(final(self)@).functions =~= active(old(self)@).functions.push(f@));
            assert(active(final(self)@).globals =~= active(old(self)@).globals);
            assert(final(self)@ == with_active(
                old(self)@,
                ModuleV {
                    functions: active(old(self)@).functions.push(f@),
                    ..active(old(self)@)
                },
            ));
        }
    }

    /// Moves the cursor.
    fn set_cursor(&mut self, c: Option<Cursor>)
        ensures
            final(self)@ == (CgV { cursor: c, ..old(self)@ }),
    {
        self.cursor = c;
    }

    /// Replaces the scope with the given parameter bindings.
    fn set_scope(&mut self, scope: Vec<(String, usize, IrType)>)
        ensures
            final(self)@ == (CgV {
                scope: Seq::new(
                    scope@.len(),
                    |i: int| (scope@[i].0@, scope@[i].1, scope@[i].2),
                ),
                ..old(self)@
            }),
    {
        self.scope = scope;
    }

    /// Appends one instruction at the cursor; the register it defines, or
    /// `None` when there is no open block under the cursor.
    fn emit(&mut self, instr: crate::ir::Instr) -> (r: Option<usize>)
        ensures
            match spec_emit(old(self)@, instr@) {
                Some((s2, id)) => r == Some(id) && final(self)@ == s2,
                None => r is None && *final(self) == *old(self),
            },
    {
        let c = match self.cursor {
            None => {
                return None;
            },
            Some(c) => c,
        };
        let m = if c.in_core {
            &self.core
        } else {
            &self.module
        };
        if c.func >= m.functions.len() {
            return None;
        }
        if c.block >= m.functions[c.func].blocks.len() {
            return None;
        }
        if m.functions[c.func].blocks[c.block].terminator.is_some() {
            return None;
        }
        if m.functions[c.func].next_reg == usize::MAX {
            return None;
        }
        let ghost spre = self@;
        let mm = if c.in_core {
            &mut self.core
        } else {
            &mut self.module
        };
        let id = mm.functions[c.func].next_reg;
        mm.functions[c.func].blocks[c.block].instrs.push((id, instr));
        mm.functions[c.func].next_reg = id + 1;
        proof {
            let mv = if c.in_core {
                spre.core
            } else {
                spre.module
            };
            let f = mv.functions[c.func as int];
            let b = f.blocks[c.block as int];
            let b2 = BlockV { instrs: b.instrs.push((id, instr@)), ..b };
            let f2 = FunctionV {
                blocks: f.blocks.update(c.block as int, b2),
                next_reg: (f.next_reg + 1) as usize,
                ..f
            };
            let m2 = ModuleV { functions: mv.functions.update(c.func as int, f2), ..mv };
            let mfin = if c.in_core {
                final(self)@.core
            } else {
                final(self)@.module
            };
            assert(mfin.functions[c.func as int].blocks[c.block as int].instrs =~= b2.instrs);
            assert(mfin.functions[c.func as int].blocks[c.block as int] == b2);
            assert(mfin.functions[c.func as int].blocks =~= f2.blocks);
            assert(mfin.functions[c.func as int] == f2);
            assert(mfin.functions =~= m2.functions);
            assert(mfin.globals =~= m2.globals);
            assert(mfin == m2);
            if c.in_core {
                assert(final(self)@ == CgV { core: m2, ..spre });
            } else {
                assert(final(self)@ == CgV { module: m2, ..spre });
            }
        }
        Some(id)
    }

    /// Closes the cursor block with a terminator; whether there was an open
    /// block to close.
    fn terminate(&mut self, t: crate::ir::Terminator) -> (ok: bool)
        ensures
            match spec_terminate(old(self)@, t@) {
                Some(s2) => ok && final(self)@ == s2,
                None => !ok && *final(self) == *old(self),
            },
    {
        let c = match self.cursor {
            None => {
                return false;
            },
            Some(c) => c,
        };
        let m = if c.in_core {
            &self.core
        } else {
            &self.module
        };
        if c.func >= m.functions.len() {
            return false;
        }
        if c.block >= m.functions[c.func].blocks.len() {
            return false;
        }
        if m.functions[c.func].blocks[c.block].terminator.is_some() {
            return false;
        }
        let ghost spre = self@;
        let mm = if c.in_core {
            &mut self.core
        } else {
            &mut self.module
        };
        mm.functions[c.func].blocks[c.block].terminator = Some(t);
        proof {
            let mv = if c.in_core {
                spre.core
            } else {
                spre.module
            };
            let f = mv.functions[c.func as int];
            let b = f.blocks[c.block as int];
            let b2 = BlockV { terminator: Some(t@), ..b };
            let f2 = FunctionV { blocks: f.blocks.update(c.block as int, b2), ..f };
            let m2 = ModuleV { functions: mv.functions.update(c.func as int, f2), ..mv };
            let mfin = if c.in_core {
                final(self)@.core
            } else {
                final(self)@.module
            };
            assert(mfin.functions[c.func as int].blocks[c.block as int].instrs =~= b2.instrs);
            assert(mfin.functions[c.func as int].blocks[c.block as int] == b2);
            assert(mfin.functions[c.func as int].blocks =~= f2.blocks);
            assert(mfin.functions[c.func as int] == f2);
            assert(mfin.functions =~= m2.functions);
            assert(mfin.globals =~= m2.globals);
            assert(mfin == m2);
            if c.in_core {
                assert(final(self)@ == CgV { core: m2, ..spre });
            } else {
                assert(final(self)@ == CgV { module: m2, ..spre });
            }
        }
        true
    }

    /// The first scope binding of this name.
    fn scope_find(&self, name: &str) -> (r: Option<(usize, IrType)>)
        ensures
            r == scope_lookup(self@.scope, name@),
    {
        proof {
            assert(self@.scope.skip(0) =~= self@.scope);
        }
        let mut i: usize = 0;
        while i < self.scope.len()
            invariant
                0 <= i <= self.scope.len(),
                scope_lookup(self@.scope, name@) == scope_lookup(
                    self@.scope.skip(i as int),
                    name@,
                ),
            decreases self.scope.len() - i,
        {
            proof {
                assert(self@.scope.skip(i as int)[0] == self@.scope[i as int]);
                assert(self@.scope.skip(i as int).drop_first() =~= self@.scope.skip(i as int + 1));
            }
            if crate::text::str_eq(self.scope[i].0.as_str(), name) {
                return Some((self.scope[i].1, self.scope[i].2));
            }
            i = i + 1;
        }
        proof {
            assert(self@.scope.skip(i as int).len() == 0);
        }
        None
    }

    /// Resolves a call target: the active module first, then the primary
    /// module while the bootstrap module is active. The pair says which
    /// module holds the callee and at which index.
    fn find_callee(&self, name: &str) -> (r: Option<(bool, usize)>)
        ensures
            match r {
                Some((in_core, i)) => lookup_callee(self@, name@) == Some(
                    if in_core {
                        self@.core.functions[i as int]
                    } else {
                        self@.module.functions[i as int]
                    },
                ) && (if in_core {
                    i < self@.core.functions.len()
                } else {
                    i < self@.module.functions.len()
                }),
                None => lookup_callee(self@, name@) is None,
            },
    {
        let am = self.active_ref();
        match am.get_function(name) {
            Some(i) => {
                proof {
                    crate::ir::lemma_find_function_props(active(self@).functions, name@);
                }
                Some((self.in_core, i))
            },
            None => {
                if self.in_core {
                    match self.module.get_function(name) {
                        Some(i) => {
                            proof {
                                crate::ir::lemma_find_function_props(
                                    self@.module.functions,
                                    name@,
                                );
                            }
                            Some((false, i))
                        },
                        None => None,
                    }
                } else {
                    None
                }
            },
        }
    }
}

/// Lifts a compilation result to its image.
pub open spec fn cres_view(r: Result<CompiledValue, CompileError>) -> Result<CompiledV, ErrorV> {
    match r {
        Ok(v) => Ok(v@),
        Err(e) => Err(e@),
    }
}

impl CodeGen {
    /// The representation class a declared type lowers to; anything but
    /// `i64`, `bool`, `str` and `char` is fatal.
    fn compile_type(node_type: &AstNode) -> (r: Result<IrType, CompileError>)
        ensures
            match r {
                Ok(t) => spec_compile_type(node_type@) == Ok::<IrType, ErrorV>(t),
                Err(e) => spec_compile_type(node_type@) == Err::<IrType, ErrorV>(e@),
            },
    {
        match node_type {
            AstNode::Type(typ) => {
                if crate::text::str_eq(typ.as_str(), "i64") {
                    Ok(IrType::I64)
                } else if crate::text::str_eq(typ.as_str(), "bool") {
                    Ok(IrType::I1)
                } else if crate::text::str_eq(typ.as_str(), "str") {
                    Ok(IrType::Ptr)
                } else if crate::text::str_eq(typ.as_str(), "char") {
                    Ok(IrType::Ptr)
                } else {
                    Err(CompileError::UnsupportedConstruct(("an unsupported declared type").to_owned()))
                }
            },
            _ => Err(CompileError::UnsupportedConstruct(("an unsupported declared type").to_owned())),
        }
    }

    /// The parameter bindings of a function definition.
    fn param_list(pairs: &Vec<(AstNode, AstNode)>) -> (r: Result<
        Vec<(String, IrType)>,
        CompileError,
    >)
        ensures
            match r {
                Ok(ps) => spec_param_list(crate::parser::ast::ast_pair_views(pairs@)) == Ok::<
                    Seq<(Seq<char>, IrType)>,
                    ErrorV,
                >(Seq::new(ps@.len(), |i: int| (ps@[i].0@, ps@[i].1))),
                Err(e) => spec_param_list(crate::parser::ast::ast_pair_views(pairs@)) == Err::<
                    Seq<(Seq<char>, IrType)>,
                    ErrorV,
                >(e@),
            },
    {
        let ghost pv = crate::parser::ast::ast_pair_views(pairs@);
        proof {
            crate::parser::ast::lemma_ast_pair_views_len(pairs@);
            assert(pv.skip(0) =~= pv);
        }
        let mut out: Vec<(String, IrType)> = Vec::new();
        let mut i: usize = 0;
        while i < pairs.len()
            invariant
                0 <= i <= pairs.len(),
                pv == crate::parser::ast::ast_pair_views(pairs@),
                pv.len() == pairs@.len(),
                out@.len() == i,
                spec_param_list(pv) == (match spec_param_list(pv.skip(i as int)) {
                    Err(e) => Err::<Seq<(Seq<char>, IrType)>, ErrorV>(e),
                    Ok(rest) => Ok(
                        Seq::new(out@.len(), |k: int| (out@[k].0@, out@[k].1)) + rest,
                    ),
                }),
            decreases pairs.len() - i,
        {
            let ghost tail = pv.skip(i as int);
            proof {
                crate::parser::ast::lemma_ast_pair_views_index(pairs@, i as int);
                assert(tail[0] == pv[i as int]);
                assert(tail.drop_first() =~= pv.skip(i as int + 1));
            }
            match &pairs[i].0 {
                AstNode::Identifier { name, args: _ } => {
                    match Self::compile_type(&pairs[i].1) {
                        Err(e) => {
                            return Err(e);
                        },
                        Ok(ty) => {
                            let ghost outpre = out@;
                            out.push((name.clone(), ty));
                            proof {
                                if spec_param_list(pv.skip(i as int + 1)) is Ok {
                                    let rest2 = spec_param_list(pv.skip(i as int + 1))->Ok_0;
                                    assert(Seq::new(
                                        outpre.len(),
                                        |k: int| (outpre[k].0@, outpre[k].1),
                                    ) + (seq![(name@, ty)] + rest2) =~= Seq::new(
                                        out@.len(),
                                        |k: int| (out@[k].0@, out@[k].1),
                                    ) + rest2);
                                }
                            }
                        },
                    }
                },
                _ => {
                    return Err(
                        CompileError::UnsupportedConstruct(
                            ("a parameter without a plain name").to_owned(),
                        ),
                    );
                },
            }
            i = i + 1;
        }
        proof {
            assert(pv.skip(i as int).len() == 0);
            assert(Seq::new(out@.len(), |k: int| (out@[k].0@, out@[k].1))
                + Seq::<(Seq<char>, IrType)>::empty() =~= Seq::new(
                out@.len(),
                |k: int| (out@[k].0@, out@[k].1),
            ));
        }
        Ok(out)
    }

    /// Lowers an argument list left to right.
    fn compile_args(&mut self, args: &Vec<AstNode>) -> (r: Result<
        Vec<(crate::ir::Operand, IrType)>,
        CompileError,
    >)
        ensures
            ({
                let (s2, r2) = spec_compile_args(
                    old(self)@,
                    crate::parser::ast::ast_views(args@),
                );
                &&& final(self)@ == s2
                &&& match r {
                    Ok(vs) => r2 == Ok::<Seq<(OperandV, IrType)>, ErrorV>(
                        Seq::new(vs@.len(), |i: int| (vs@[i].0@, vs@[i].1)),
                    ),
                    Err(e) => r2 == Err::<Seq<(OperandV, IrType)>, ErrorV>(e@),
                }
            }),
        decreases ast_list_height(crate::parser::ast::ast_views(args@)), 1int,
    {
        let ghost argsv = crate::parser::ast::ast_views(args@);
        proof {
            crate::parser::ast::lemma_ast_views_len(args@);
            assert(argsv.skip(0) =~= argsv);
        }
        let mut out: Vec<(crate::ir::Operand, IrType)> = Vec::new();
        let mut i: usize = 0;
        while i < args.len()
            invariant
                0 <= i <= args.len(),
                argsv == crate::parser::ast::ast_views(args@),
                argsv.len() == args@.len(),
                out@.len() == i,
                spec_compile_args(old(self)@, argsv) == (match spec_compile_args(
                    self@,
                    argsv.skip(i as int),
                ) {
                    (sf, Err(e)) => (sf, Err::<Seq<(OperandV, IrType)>, ErrorV>(e)),
                    (sf, Ok(rest)) => (
                        sf,
                        Ok(Seq::new(out@.len(), |k: int| (out@[k].0@, out@[k].1)) + rest),
                    ),
                }),
            decreases args.len() - i,
        {
            let ghost tail = argsv.skip(i as int);
            let ghost spre = self@;
            proof {
                crate::parser::ast::lemma_ast_views_index(args@, i as int);
                assert(tail[0] == argsv[i as int]);
                assert(tail.drop_first() =~= argsv.skip(i as int + 1));
                crate::parser::ast::lemma_ast_list_height_index(argsv, i as int);
            }
            match self.compile_astnode(&args[i]) {
                Err(e) => {
                    return Err(e);
                },
                Ok(CompiledValue::Func { .. }) => {
                    return Err(
                        CompileError::UnsupportedConstruct(
                            ("a function used as a value").to_owned(),
                        ),
                    );
                },
                Ok(CompiledValue::Val { op, ty }) => {
                    let ghost outpre = out@;
                    out.push((op, ty));
                    proof {
                        let (s2c, r2c) = spec_compile_args(self@, argsv.skip(i as int + 1));
                        if r2c is Ok {
                            let rest2 = r2c->Ok_0;
                            assert(Seq::new(outpre.len(), |k: int| (outpre[k].0@, outpre[k].1))
                                + (seq![(op@, ty)] + rest2) =~= Seq::new(
                                out@.len(),
                                |k: int| (out@[k].0@, out@[k].1),
                            ) + rest2);
                        }
                    }
                },
            }
            i = i + 1;
        }
        proof {
            assert(argsv.skip(i as int).len() == 0);
            assert(Seq::new(out@.len(), |k: int| (out@[k].0@, out@[k].1))
                + Seq::<(OperandV, IrType)>::empty() =~= Seq::new(
                out@.len(),
                |k: int| (out@[k].0@, out@[k].1),
            ));
        }
        Ok(out)
    }

    /// Lowers `name(args...)`: parameters of the enclosing function take
    /// priority; otherwise the name must be a previously defined function
    /// and a tail call to it is emitted.
    #[verifier::loop_isolation(false)]
    fn compile_identifier(&mut self, name: &String, args: &Vec<AstNode>) -> (r: Result<
        CompiledValue,
        CompileError,
    >)
        ensures
            ({
                let (s2, r2) = spec_compile_identifier(
                    old(self)@,
                    name@,
                    crate::parser::ast::ast_views(args@),
                );
                final(self)@ == s2 && cres_view(r) == r2
            }),
        decreases ast_list_height(crate::parser::ast::ast_views(args@)), 2int,
    {
        match self.scope_find(name.as_str()) {
            Some((idx, ty)) => Ok(
                CompiledValue::Val { op: crate::ir::Operand::Param(idx), ty },
            ),
            None => {
                let compiled = match self.compile_args(args) {
                    Err(e) => {
                        return Err(e);
                    },
                    Ok(c) => c,
                };
                let ghost s1v = self@;
                let ghost cv = Seq::new(compiled@.len(), |i: int| (compiled@[i].0@, compiled@[i].1));
                match self.find_callee(name.as_str()) {
                    None => Err(CompileError::UnresolvedSymbol(name.clone())),
                    Some((ic, fi)) => {
                        let ghost fv = lookup_callee(self@, name@).unwrap();
                        let (ret, variadic, nparams) = if ic {
                            let f = &self.core.functions[fi];
                            (f.ret, f.variadic, f.params.len())
                        } else {
                            let f = &self.module.functions[fi];
                            (f.ret, f.variadic, f.params.len())
                        };
                        let arity_ok = if variadic {
                            compiled.len() >= nparams
                        } else {
                            compiled.len() == nparams
                        };
                        if !arity_ok {
                            proof {
                                assert(nparams == fv.params.len());
                                assert(compiled@.len() == cv.len());
                                assert(Seq::new(cv.len(), |i: int| cv[i].1).len() == cv.len());
                                assert(!args_match(fv, Seq::new(cv.len(), |i: int| cv[i].1)));
                            }
                            return Err(CompileError::RepresentationMismatch);
                        }
                        let mut k: usize = 0;
                        while k < nparams
                            invariant
                                0 <= k <= nparams,
                                self@ == s1v,
                                compiled@.len() == cv.len(),
                                cv == Seq::new(
                                    compiled@.len(),
                                    |i: int| (compiled@[i].0@, compiled@[i].1),
                                ),
                                lookup_callee(self@, name@) == Some(fv),
                                nparams == fv.params.len(),
                                fv == (if ic {
                                    self@.core.functions[fi as int]
                                } else {
                                    self@.module.functions[fi as int]
                                }),
                                (if ic {
                                    fi < self@.core.functions.len()
                                } else {
                                    fi < self@.module.functions.len()
                                }),
                                nparams <= compiled@.len(),
                                forall|j: int| 0 <= j < k ==> cv[j].1 == fv.params[j].1,
                            decreases nparams - k,
                        {
                            let pty = if ic {
                                self.core.functions[fi].params[k].1
                            } else {
                                self.module.functions[fi].params[k].1
                            };
                            proof {
                                assert(pty == fv.params[k as int].1);
                                assert(cv[k as int] == (compiled@[k as int].0@, compiled@[k as int].1));
                            }
                            if compiled[k].1 != pty {
                                proof {
                                    assert(cv[k as int].1 != fv.params[k as int].1);
                                    assert(Seq::new(cv.len(), |i: int| cv[i].1)[k as int] == cv[k as int].1);
                                    assert(!args_match(fv, Seq::new(cv.len(), |i: int| cv[i].1)));
                                }
                                return Err(CompileError::RepresentationMismatch);
                            }
                            k = k + 1;
                        }
                        proof {
                            assert forall|j: int| 0 <= j < fv.params.len() implies Seq::new(
                                cv.len(),
                                |i: int| cv[i].1,
                            )[j] == fv.params[j].1 by {
                                assert(Seq::new(cv.len(), |i: int| cv[i].1)[j] == cv[j].1);
                            }
                            assert(args_match(fv, Seq::new(cv.len(), |i: int| cv[i].1)));
                        }
                        let mut ops: Vec<crate::ir::Operand> = Vec::new();
                        let mut k2: usize = 0;
                        while k2 < compiled.len()
                            invariant
                                0 <= k2 <= compiled.len(),
                                self@ == s1v,
                                compiled@.len() == cv.len(),
                                cv == Seq::new(
                                    compiled@.len(),
                                    |i: int| (compiled@[i].0@, compiled@[i].1),
                                ),
                                ops@.len() == k2,
                                forall|j: int| 0 <= j < k2 ==> ops@[j]@ == cv[j].0,
                            decreases compiled.len() - k2,
                        {
                            ops.push(compiled[k2].0.clone());
                            k2 = k2 + 1;
                        }
                        let instr = crate::ir::Instr::Call {
                            callee: name.clone(),
                            ret,
                            args: ops,
                            tail: true,
                        };
                        proof {
                            assert(instr@->args =~= Seq::new(cv.len(), |i: int| cv[i].0));
                        }
                        match self.emit(instr) {
                            None => Err(
                                CompileError::UnsupportedConstruct(
                                    ("an expression outside a function").to_owned(),
                                ),
                            ),
                            Some(id) => Ok(
                                CompiledValue::Val { op: crate::ir::Operand::Reg(id), ty: ret },
                            ),
                        }
                    },
                }
            },
        }
    }

    /// Lowers a parenthesized expression through its stack slot.
    fn compile_parens(&mut self, inner: &AstNode) -> (r: Result<CompiledValue, CompileError>)
        ensures
            ({
                let (s2, r2) = spec_compile_parens(old(self)@, inner@);
                final(self)@ == s2 && cres_view(r) == r2
            }),
        decreases ast_height(inner@), 1int,
    {
        let (op, ty) = match self.compile_astnode(inner) {
            Err(e) => {
                return Err(e);
            },
            Ok(CompiledValue::Func { .. }) => {
                return Err(
                    CompileError::UnsupportedConstruct(("a function used as a value").to_owned()),
                );
            },
            Ok(CompiledValue::Val { op, ty }) => (op, ty),
        };
        let a_id = match self.emit(crate::ir::Instr::Alloca(ty)) {
            None => {
                return Err(
                    CompileError::UnsupportedConstruct(
                        ("an expression outside a function").to_owned(),
                    ),
                );
            },
            Some(id) => id,
        };
        match self.emit(
            crate::ir::Instr::Store { value: op, ptr: crate::ir::Operand::Reg(a_id) },
        ) {
            None => {
                return Err(
                    CompileError::UnsupportedConstruct(
                        ("an expression outside a function").to_owned(),
                    ),
                );
            },
            Some(_) => {},
        }
        match self.emit(crate::ir::Instr::Load { ty, ptr: crate::ir::Operand::Reg(a_id) }) {
            None => Err(
                CompileError::UnsupportedConstruct(
                    ("an expression outside a function").to_owned(),
                ),
            ),
            Some(l_id) => Ok(CompiledValue::Val { op: crate::ir::Operand::Reg(l_id), ty }),
        }
    }

    /// Lowers a conditional expression.
    fn compile_conditional(
        &mut self,
        condition: &AstNode,
        stmt_true: &AstNode,
        stmt_false: &AstNode,
    ) -> (r: Result<CompiledValue, CompileError>)
        ensures
            ({
                let (s2, r2) = spec_compile_conditional(
                    old(self)@,
                    condition@,
                    stmt_true@,
                    stmt_false@,
                );
                final(self)@ == s2 && cres_view(r) == r2
            }),
        decreases ast_height(condition@) + ast_height(stmt_true@) + ast_height(stmt_false@), 2int,
    {
        let (t_op, t_ty) = match self.compile_astnode(stmt_true) {
            Err(e) => {
                return Err(e);
            },
            Ok(CompiledValue::Func { .. }) => {
                return Err(
                    CompileError::UnsupportedConstruct(("a function used as a value").to_owned()),
                );
            },
            Ok(CompiledValue::Val { op, ty }) => (op, ty),
        };
        let (c_op, c_ty) = match self.compile_astnode(condition) {
            Err(e) => {
                return Err(e);
            },
            Ok(CompiledValue::Func { .. }) => {
                return Err(
                    CompileError::UnsupportedConstruct(("a function used as a value").to_owned()),
                );
            },
            Ok(CompiledValue::Val { op, ty }) => (op, ty),
        };
        if c_ty != IrType::I1 {
            return Err(CompileError::RepresentationMismatch);
        }
        let cmp_id = match self.emit(
            crate::ir::Instr::CmpEq(c_op, crate::ir::Operand::ConstBool(true)),
        ) {
            None => {
                return Err(
                    CompileError::UnsupportedConstruct(
                        ("an expression outside a function").to_owned(),
                    ),
                );
            },
            Some(id) => id,
        };
        self.compile_conditional_blocks(stmt_false, t_op, t_ty, cmp_id)
    }

    /// The block surgery of a conditional, after the comparison was emitted.
    fn compile_conditional_blocks(
        &mut self,
        stmt_false: &AstNode,
        t_op: crate::ir::Operand,
        t_ty: IrType,
        cmp_id: usize,
    ) -> (r: Result<CompiledValue, CompileError>)
        ensures
            ({
                let (s2, r2) = spec_compile_conditional_blocks(
                    old(self)@,
                    stmt_false@,
                    t_op@,
                    t_ty,
                    cmp_id,
                );
                final(self)@ == s2 && cres_view(r) == r2
            }),
        decreases ast_height(stmt_false@), 1int,
    {
        let am_len = if self.in_core {
            self.core.functions.len()
        } else {
            self.module.functions.len()
        };
        let cursor_ok = match self.cursor {
            Some(c) => c.in_core == self.in_core && am_len > 0 && c.func == am_len - 1,
            None => false,
        };
        if am_len == 0 || !cursor_ok {
            return Err(
                CompileError::UnsupportedConstruct(
                    ("a conditional outside the function under construction").to_owned(),
                ),
            );
        }
        let lf = am_len - 1;
        let nblocks = if self.in_core {
            self.core.functions[lf].blocks.len()
        } else {
            self.module.functions[lf].blocks.len()
        };
        if nblocks >= usize::MAX - 2 {
            return Err(
                CompileError::UnsupportedConstruct(
                    ("a conditional outside the function under construction").to_owned(),
                ),
            );
        }
        let then_i = nblocks;
        let else_i = nblocks + 1;
        let cont_i = nblocks + 2;
        self.append_block(lf, "then");
        self.append_block(lf, "else");
        self.append_block(lf, "ifcont");
        proof {
            let am0 = active(old(self)@);
            let f0 = am0.functions[lf as int];
            let f2 = spec_append_block(
                spec_append_block(spec_append_block(f0, "then"@), "else"@),
                "ifcont"@,
            );
            assert(active(self@).functions =~= am0.functions.update(lf as int, f2));
            assert(self@ == with_active(
                old(self)@,
                ModuleV { functions: am0.functions.update(lf as int, f2), ..am0 },
            ));
        }
        if !self.terminate(
            crate::ir::Terminator::CondBr {
                cond: crate::ir::Operand::Reg(cmp_id),
                then_blk: then_i,
                else_blk: else_i,
            },
        ) {
            return Err(
                CompileError::UnsupportedConstruct(
                    ("an expression outside a function").to_owned(),
                ),
            );
        }
        self.set_cursor(Some(Cursor { in_core: self.in_core, func: lf, block: then_i }));
        if !self.terminate(crate::ir::Terminator::Br(cont_i)) {
            return Err(
                CompileError::UnsupportedConstruct(
                    ("an expression outside a function").to_owned(),
                ),
            );
        }
        self.set_cursor(Some(Cursor { in_core: self.in_core, func: lf, block: else_i }));
        let (f_op, f_ty) = match self.compile_astnode(stmt_false) {
            Err(e) => {
                return Err(e);
            },
            Ok(CompiledValue::Func { .. }) => {
                return Err(
                    CompileError::UnsupportedConstruct(("a function used as a value").to_owned()),
                );
            },
            Ok(CompiledValue::Val { op, ty }) => (op, ty),
        };
        let else_exit = match self.cursor {
            None => {
                return Err(
                    CompileError::UnsupportedConstruct(
                        ("an expression outside a function").to_owned(),
                    ),
                );
            },
            Some(c) => c.block,
        };
        if !self.terminate(crate::ir::Terminator::Br(cont_i)) {
            return Err(
                CompileError::UnsupportedConstruct(
                    ("an expression outside a function").to_owned(),
                ),
            );
        }
        if f_ty != t_ty {
            return Err(CompileError::RepresentationMismatch);
        }
        self.set_cursor(Some(Cursor { in_core: self.in_core, func: lf, block: cont_i }));
        let phi = crate::ir::Instr::Phi {
            ty: t_ty,
            incoming: vec![(t_op, then_i), (f_op, else_exit)],
        };
        proof {
            assert(phi@->incoming =~= seq![(t_op@, then_i), (f_op@, else_exit)]);
        }
        match self.emit(phi) {
            None => Err(
                CompileError::UnsupportedConstruct(
                    ("an expression outside a function").to_owned(),
                ),
            ),
            Some(phi_id) => Ok(
                CompiledValue::Val { op: crate::ir::Operand::Reg(phi_id), ty: t_ty },
            ),
        }
    }

    /// Lowers a function definition and registers it in the active module.
    #[verifier::loop_isolation(false)]
    fn compile_function(
        &mut self,
        name: &String,
        return_type: &AstNode,
        args: &AstNode,
        value: &AstNode,
    ) -> (r: Result<CompiledValue, CompileError>)
        ensures
            ({
                let (s2, r2) = spec_compile_function(
                    old(self)@,
                    name@,
                    return_type@,
                    args@,
                    value@,
                );
                final(self)@ == s2 && cres_view(r) == r2
            }),
        decreases ast_height(value@), 1int,
    {
        let ic0 = self.in_core;
        let pairs = match args {
            AstNode::FnArgs(x) => x,
            _ => {
                return Err(
                    CompileError::UnsupportedConstruct(
                        ("a function without a parameter list").to_owned(),
                    ),
                );
            },
        };
        let ret_ty = match Self::compile_type(return_type) {
            Err(e) => {
                return Err(e);
            },
            Ok(t) => t,
        };
        let params = match Self::param_list(pairs) {
            Err(e) => {
                return Err(e);
            },
            Ok(p) => p,
        };
        let ghost plv = spec_param_list(crate::parser::ast::ast_pair_views(pairs@))->Ok_0;
        proof {
            assert(plv == Seq::new(params@.len(), |i: int| (params@[i].0@, params@[i].1)));
        }
        if self.active_ref().get_function(name.as_str()).is_some() {
            proof {
                crate::ir::lemma_find_function_props(active(self@).functions, name@);
            }
            return Err(CompileError::DuplicateSymbol(name.clone()));
        }
        proof {
            crate::ir::lemma_find_function_props(active(self@).functions, name@);
        }
        let fidx = self.active_ref().functions.len();
        let mut scope: Vec<(String, usize, IrType)> = Vec::new();
        let mut k: usize = 0;
        while k < params.len()
            invariant
                0 <= k <= params.len(),
                scope@.len() == k,
                forall|j: int|
                    0 <= j < k ==> (scope@[j].0@, scope@[j].1, scope@[j].2) == (
                    params@[j].0@,
                    j as usize,
                    params@[j].1,
                    ),
            decreases params.len() - k,
        {
            scope.push((params[k].0.clone(), k, params[k].1));
            k = k + 1;
        }
        let entry = crate::ir::Block {
            label: ("entry").to_owned(),
            instrs: Vec::new(),
            terminator: None,
        };
        proof {
            assert(entry@.instrs =~= Seq::<(usize, InstrV)>::empty());
            assert(entry@ == (BlockV {
                label: "entry"@,
                instrs: Seq::empty(),
                terminator: None,
            }));
        }
        let ghost entryv = entry@;
        let f = crate::ir::IrFunction {
            name: name.clone(),
            params,
            ret: ret_ty,
            external: false,
            variadic: false,
            blocks: vec![entry],
            next_reg: 0,
        };
        let ghost pv = Seq::new(f.params@.len(), |i: int| (f.params@[i].0@, f.params@[i].1));
        proof {
            assert(pv =~= plv);
            assert(f@.blocks =~= seq![entryv]);
            assert(f@ == (FunctionV {
                name: name@,
                params: pv,
                ret: ret_ty,
                external: false,
                variadic: false,
                blocks: seq![
                    BlockV { label: "entry"@, instrs: Seq::empty(), terminator: None },
                ],
                next_reg: 0,
            }));
        }
        self.push_function(f);
        proof {
            assert(Seq::new(scope@.len(), |i: int| (scope@[i].0@, scope@[i].1, scope@[i].2))
                =~= scope_of_params(plv));
        }
        self.set_scope(scope);
        self.set_cursor(Some(Cursor { in_core: self.in_core, func: fidx, block: 0 }));
        proof {
            let s0 = old(self)@;
            let fm = FunctionV {
                name: name@,
                params: plv,
                ret: ret_ty,
                external: false,
                variadic: false,
                blocks: seq![
                    BlockV { label: "entry"@, instrs: Seq::empty(), terminator: None },
                ],
                next_reg: 0,
            };
            let s1m = with_active(
                s0,
                ModuleV { functions: active(s0).functions.push(fm), ..active(s0) },
            );
            let s2m = CgV {
                scope: scope_of_params(plv),
                cursor: Some(Cursor { in_core: s1m.in_core, func: fidx, block: 0 }),
                ..s1m
            };
            assert(self@ == s2m);
        }
        let (op, ty) = match self.compile_astnode(value) {
            Err(e) => {
                return Err(e);
            },
            Ok(CompiledValue::Func { .. }) => {
                return Err(
                    CompileError::UnsupportedConstruct(("a function used as a value").to_owned()),
                );
            },
            Ok(CompiledValue::Val { op, ty }) => (op, ty),
        };
        if ty != ret_ty {
            return Err(CompileError::RepresentationMismatch);
        }
        if !self.terminate(crate::ir::Terminator::Ret(op)) {
            return Err(
                CompileError::UnsupportedConstruct(
                    ("an expression outside a function").to_owned(),
                ),
            );
        }
        Ok(CompiledValue::Func { in_core: ic0, index: fidx })
    }

    /// Appends a fresh, open block with this label to a function of the
    /// active module.
    fn append_block(&mut self, func: usize, label: &str)
        ensures
            ({
                let am = active(old(self)@);
                if func < am.functions.len() {
                    final(self)@ == with_active(
                        old(self)@,
                        ModuleV {
                            functions: am.functions.update(
                                func as int,
                                spec_append_block(am.functions[func as int], label@),
                            ),
                            ..am
                        },
                    )
                } else {
                    *final(self) == *old(self)
                }
            }),
    {
        let b = crate::ir::Block {
            label: label.to_owned(),
            instrs: Vec::new(),
            terminator: None,
        };
        proof {
            assert(b@.instrs =~= Seq::<(usize, InstrV)>::empty());
            assert(b@ == (BlockV { label: label@, instrs: Seq::empty(), terminator: None }));
        }
        let mm = if self.in_core {
            &mut self.core
        } else {
            &mut self.module
        };
        if func >= mm.functions.len() {
            return;
        }
        mm.functions[func].blocks.push(b);
        proof {
            let am = active(old(self)@);
            let f0 = am.functions[func as int];
            let f2 = spec_append_block(f0, label@);
            let mfin = active(final(self)@);
            assert(mfin.functions[func as int].blocks =~= f2.blocks);
            assert(mfin.functions[func as int] == f2);
            assert(mfin.functions =~= am.functions.update(func as int, f2));
            assert(mfin.globals =~= am.globals);
            assert(mfin == (ModuleV {
                functions: am.functions.update(func as int, f2),
                ..am
            }));
            if old(self)@.in_core {
                assert(final(self)@ == (CgV { core: mfin, ..old(self)@ }));
            } else {
                assert(final(self)@ == (CgV { module: mfin, ..old(self)@ }));
            }
        }
    }

    /// Lowers a single AST node to an SSA value; any unsupported node kind
    /// is fatal.
    fn compile_astnode(&mut self, node: &AstNode) -> (r: Result<CompiledValue, CompileError>)
        ensures
            ({
                let (s2, r2) = spec_compile_node(old(self)@, node@);
                final(self)@ == s2 && cres_view(r) == r2
            }),
        decreases ast_height(node@), 0int,
    {
        match node {
            AstNode::Int(n) => Ok(
                CompiledValue::Val { op: crate::ir::Operand::ConstI64(*n), ty: IrType::I64 },
            ),
            AstNode::Boolean(b) => Ok(
                CompiledValue::Val { op: crate::ir::Operand::ConstBool(*b), ty: IrType::I1 },
            ),
            AstNode::Str(x) => {
                let _count = self.global_count();
                let name = self.available_name(0);
                let text = x.clone();
                self.push_global(crate::ir::GlobalDef { name: name.clone(), text });
                Ok(CompiledValue::Val { op: crate::ir::Operand::Global(name), ty: IrType::Ptr })
            },
            AstNode::Char(c) => {
                let _count = self.global_count();
                let name = self.available_name(0);
                let text = crate::text::char_to_string(*c);
                self.push_global(crate::ir::GlobalDef { name: name.clone(), text });
                Ok(CompiledValue::Val { op: crate::ir::Operand::Global(name), ty: IrType::Ptr })
            },
            AstNode::Fn { name, return_type, args, value } => self.compile_function(
                name,
                return_type,
                args,
                value,
            ),
            AstNode::IfElse { condition, stmt_true, stmt_false } => self.compile_conditional(
                condition,
                stmt_true,
                stmt_false,
            ),
            AstNode::Identifier { name, args } => self.compile_identifier(name, args),
            AstNode::InParens(inner) => self.compile_parens(inner),
            AstNode::List(_) => Err(
                CompileError::UnsupportedConstruct(("list expressions").to_owned()),
            ),
            AstNode::Type(_) => Err(
                CompileError::UnsupportedConstruct(("a bare type expression").to_owned()),
            ),
            AstNode::FnArgs(_) => Err(
                CompileError::UnsupportedConstruct(("a bare parameter list").to_owned()),
            ),
            AstNode::ModuleImport(_) => Err(
                CompileError::UnsupportedConstruct(("module imports").to_owned()),
            ),
            AstNode::ModuleDeclaration(_) => Err(
                CompileError::UnsupportedConstruct(("module declarations").to_owned()),
            ),
            AstNode::Module(_) => Err(
                CompileError::UnsupportedConstruct(("module names").to_owned()),
            ),
            AstNode::Enum { .. } => Err(
                CompileError::UnsupportedConstruct(("enum declarations").to_owned()),
            ),
            AstNode::AnonFn { .. } => Err(
                CompileError::UnsupportedConstruct(("anonymous functions").to_owned()),
            ),
            AstNode::Eoi => Err(
                CompileError::UnsupportedConstruct(("the end of input marker").to_owned()),
            ),
        }
    }
}

// ---------------------------------------------------------------------------
// Bootstrap: the built-in operator library, and linking the bootstrap
// module into the primary module.
// ---------------------------------------------------------------------------
/// An external (linked-at-run-time) declaration taking one byte pointer and
/// returning an integer.
pub open spec fn extern_fn(name: Seq<char>, variadic: bool) -> FunctionV {
    FunctionV {
        name,
        params: seq![(Seq::empty(), IrType::Ptr)],
        ret: IrType::I64,
        external: true,
        variadic,
        blocks: Seq::empty(),
        next_reg: 0,
    }
}

/// A built-in operator: two parameters, an entry block with one instruction
/// on them, and a return of its register.
pub open spec fn builtin_binop(
    name: Seq<char>,
    param_ty: IrType,
    ret_ty: IrType,
    ins: InstrV,
) -> FunctionV {
    FunctionV {
        name,
        params: seq![(Seq::empty(), param_ty), (Seq::empty(), param_ty)],
        ret: ret_ty,
        external: false,
        variadic: false,
        blocks: seq![
            BlockV {
                label: "entry"@,
                instrs: seq![(0usize, ins)],
                terminator: Some(TermV::Ret(OperandV::Reg(0))),
            },
        ],
        next_reg: 1,
    }
}

/// The built-in integer addition operator.
pub open spec fn builtin_add() -> FunctionV {
    builtin_binop(
        "+"@,
        IrType::I64,
        IrType::I64,
        InstrV::Add(OperandV::Param(0), OperandV::Param(1)),
    )
}

/// The built-in integer subtraction operator.
pub open spec fn builtin_sub() -> FunctionV {
    builtin_binop(
        "-"@,
        IrType::I64,
        IrType::I64,
        InstrV::Sub(OperandV::Param(0), OperandV::Param(1)),
    )
}

/// The built-in integer multiplication operator.
pub open spec fn builtin_mul() -> FunctionV {
    builtin_binop(
        "*"@,
        IrType::I64,
        IrType::I64,
        InstrV::Mul(OperandV::Param(0), OperandV::Param(1)),
    )
}

/// The built-in integer division operator (signed, truncating toward
/// zero).
pub open spec fn builtin_div() -> FunctionV {
    builtin_binop(
        "/"@,
        IrType::I64,
        IrType::I64,
        InstrV::SDiv(OperandV::Param(0), OperandV::Param(1)),
    )
}

/// The built-in integer equality operator.
pub open spec fn builtin_int_eq() -> FunctionV {
    builtin_binop(
        "=="@,
        IrType::I64,
        IrType::I1,
        InstrV::CmpEq(OperandV::Param(0), OperandV::Param(1)),
    )
}

/// The built-in boolean equality operator.
pub open spec fn builtin_bool_eq() -> FunctionV {
    builtin_binop(
        "bool_eq"@,
        IrType::I1,
        IrType::I1,
        InstrV::CmpEq(OperandV::Param(0), OperandV::Param(1)),
    )
}

/// Installs the external declarations and built-in operators: `puts`,
/// `printf` and boolean equality in the primary module, the integer
/// operators in the bootstrap module, which then becomes the active one.
pub open spec fn spec_install_builtins(s: CgV) -> CgV {
    CgV {
        module: ModuleV {
            functions: s.module.functions + seq![
                extern_fn("puts"@, false),
                extern_fn("printf"@, true),
                builtin_bool_eq(),
            ],
            ..s.module
        },
        core: ModuleV {
            functions: s.core.functions + seq![
                builtin_int_eq(),
                builtin_add(),
                builtin_sub(),
                builtin_mul(),
                builtin_div(),
            ],
            ..s.core
        },
        in_core: true,
        cursor: Some(
            Cursor { in_core: true, func: (s.core.functions.len() + 4) as usize, block: 0 },
        ),
        ..s
    }
}

/// No function or global name occurs in both modules.
pub open spec fn names_disjoint(a: ModuleV, b: ModuleV) -> bool {
    &&& forall|i: int, j: int|
        0 <= i < a.functions.len() && 0 <= j < b.functions.len() ==> a.functions[i].name
            != b.functions[j].name
    &&& forall|i: int, j: int|
        0 <= i < a.globals.len() && 0 <= j < b.globals.len() ==> a.globals[i].name
            != b.globals[j].name
}

/// The merge of the bootstrap module into the primary one: its functions
/// and globals are appended.
pub open spec fn spec_link(primary: ModuleV, core: ModuleV) -> ModuleV {
    ModuleV {
        name: primary.name,
        functions: primary.functions + core.functions,
        globals: primary.globals + core.globals,
    }
}

/// A module holding nothing.
pub open spec fn empty_module(name: Seq<char>) -> ModuleV {
    ModuleV { name, functions: Seq::empty(), globals: Seq::empty() }
}

/// The state a fresh compilation unit starts in.
pub open spec fn spec_init() -> CgV {
    CgV {
        module: empty_module("main"@),
        core: empty_module("core"@),
        in_core: false,
        scope: Seq::empty(),
        cursor: None,
    }
}

/// Lowers a list of top-level nodes in order, skipping end-of-input
/// markers; the first fatal error stops the run.
pub open spec fn spec_compile_nodes(s: CgV, nodes: Seq<AstV>) -> (CgV, Result<(), ErrorV>)
    decreases nodes.len(),
{
    if nodes.len() == 0 {
        (s, Ok(()))
    } else if nodes[0] is Eoi {
        spec_compile_nodes(s, nodes.drop_first())
    } else {
        let (s1, r1) = spec_compile_node(s, nodes[0]);
        match r1 {
            Err(e) => (s1, Err(e)),
            Ok(_) => spec_compile_nodes(s1, nodes.drop_first()),
        }
    }
}

/// The whole bootstrap: install the built-ins, lower the core library's
/// definitions into the bootstrap module, and link it into the primary
/// module. Any failure, including a name clash at link time, is a
/// bootstrap failure.
pub open spec fn spec_bootstrap(s: CgV, core_ast: Seq<AstV>) -> (CgV, Result<(), ErrorV>) {
    let s1 = spec_install_builtins(s);
    let (s2, r) = spec_compile_nodes(s1, core_ast);
    match r {
        Err(_) => (s2, Err(ErrorV::BootstrapFailure)),
        Ok(_) => if names_disjoint(s2.module, s2.core) {
            (
                CgV {
                    module: spec_link(s2.module, s2.core),
                    core: ModuleV {
                        name: s2.core.name,
                        functions: Seq::empty(),
                        globals: Seq::empty(),
                    },
                    in_core: false,
                    cursor: None,
                    ..s2
                },
                Ok(()),
            )
        } else {
            (s2, Err(ErrorV::BootstrapFailure))
        },
    }
}

/// Compiling a program: bootstrap first, the user's definitions after.
pub open spec fn spec_compile_program(s: CgV, ast: Seq<AstV>, core_ast: Seq<AstV>) -> (
    CgV,
    Result<(), ErrorV>,
) {
    let (s1, r1) = spec_bootstrap(s, core_ast);
    match r1 {
        Err(e) => (s1, Err(e)),
        Ok(_) => spec_compile_nodes(s1, ast),
    }
}

/// What running `main` yields: the entry point must exist, and its
/// evaluation must come back within the step budget.
pub open spec fn spec_call_main(m: ModuleV, fuel: nat) -> Result<crate::eval::RuntimeV, ErrorV> {
    match find_function(m.functions, "main"@) {
        None => Err(ErrorV::MissingEntryPoint),
        Some(i) => match crate::eval::eval_fn(m, i, Seq::empty(), fuel) {
            Some(v) => Ok(v),
            None => Err(ErrorV::ExecutionTrap),
        },
    }
}

/// Lifts a unit result to its image.
pub open spec fn unit_res_view(r: Result<(), CompileError>) -> Result<(), ErrorV> {
    match r {
        Ok(_) => Ok(()),
        Err(e) => Err(e@),
    }
}

impl CodeGen {
    /// A fresh compilation unit: an empty primary module and an empty
    /// bootstrap module.
    pub fn new() -> (r: Self)
        ensures
            r@ == spec_init(),
    {
        let r = CodeGen {
            module: IrModule {
                name: ("main").to_owned(),
                functions: Vec::new(),
                globals: Vec::new(),
            },
            core: IrModule {
                name: ("core").to_owned(),
                functions: Vec::new(),
                globals: Vec::new(),
            },
            in_core: false,
            scope: Vec::new(),
            cursor: None,
        };
        proof {
            assert(r@.module.functions =~= Seq::<FunctionV>::empty());
            assert(r@.module.globals =~= Seq::<GlobalV>::empty());
            assert(r@.core.functions =~= Seq::<FunctionV>::empty());
            assert(r@.core.globals =~= Seq::<GlobalV>::empty());
            assert(r@.scope =~= Seq::<(Seq<char>, usize, IrType)>::empty());
            assert(r@ == spec_init());
        }
        r
    }

    /// Looks a function up in the primary module.
    pub fn get_function(&self, name: &str) -> (r: Option<usize>)
        ensures
            match r {
                Some(i) => find_function(self@.module.functions, name@) == Some(i as int),
                None => find_function(self@.module.functions, name@) is None,
            },
    {
        self.module.get_function(name)
    }

    /// An external declaration.
    fn make_extern(name: &str, variadic: bool) -> (f: crate::ir::IrFunction)
        ensures
            f@ == extern_fn(name@, variadic),
    {
        let f = crate::ir::IrFunction {
            name: name.to_owned(),
            params: vec![(String::new(), IrType::Ptr)],
            ret: IrType::I64,
            external: true,
            variadic,
            blocks: Vec::new(),
            next_reg: 0,
        };
        proof {
            assert(f@.params =~= seq![(Seq::<char>::empty(), IrType::Ptr)]);
            assert(f@.blocks =~= Seq::<BlockV>::empty());
            assert(f@ == extern_fn(name@, variadic));
        }
        f
    }

    /// A built-in operator definition.
    fn make_binop(
        name: &str,
        param_ty: IrType,
        ret_ty: IrType,
        ins: crate::ir::Instr,
    ) -> (f: crate::ir::IrFunction)
        ensures
            f@ == builtin_binop(name@, param_ty, ret_ty, ins@),
    {
        let entry = crate::ir::Block {
            label: ("entry").to_owned(),
            instrs: vec![(0usize, ins)],
            terminator: Some(crate::ir::Terminator::Ret(crate::ir::Operand::Reg(0))),
        };
        let ghost insv = entry.instrs@[0].1@;
        proof {
            assert(entry@.instrs =~= seq![(0usize, insv)]);
            assert(entry@ == (BlockV {
                label: "entry"@,
                instrs: seq![(0usize, insv)],
                terminator: Some(TermV::Ret(OperandV::Reg(0))),
            }));
        }
        let ghost entryv = entry@;
        let f = crate::ir::IrFunction {
            name: name.to_owned(),
            params: vec![(String::new(), param_ty), (String::new(), param_ty)],
            ret: ret_ty,
            external: false,
            variadic: false,
            blocks: vec![entry],
            next_reg: 1,
        };
        proof {
            assert(f@.params =~= seq![
                (Seq::<char>::empty(), param_ty),
                (Seq::<char>::empty(), param_ty),
            ]);
            assert(f@.blocks =~= seq![entryv]);
            assert(f@ == builtin_binop(name@, param_ty, ret_ty, insv));
        }
        f
    }

    /// Declares the external output primitives and defines the built-in
    /// operators; the bootstrap module becomes the active one.
    fn install_builtins(&mut self)
        ensures
            final(self)@ == spec_install_builtins(old(self)@),
    {
        let puts = Self::make_extern("puts", false);
        let printf = Self::make_extern("printf", true);
        let bool_eq = Self::make_binop(
            "bool_eq",
            IrType::I1,
            IrType::I1,
            crate::ir::Instr::CmpEq(crate::ir::Operand::Param(0), crate::ir::Operand::Param(1)),
        );
        self.module.functions.push(puts);
        self.module.functions.push(printf);
        self.module.functions.push(bool_eq);
        let int_eq = Self::make_binop(
            "==",
            IrType::I64,
            IrType::I1,
            crate::ir::Instr::CmpEq(crate::ir::Operand::Param(0), crate::ir::Operand::Param(1)),
        );
        let add_fn = Self::make_binop(
            "+",
            IrType::I64,
            IrType::I64,
            crate::ir::Instr::Add(crate::ir::Operand::Param(0), crate::ir::Operand::Param(1)),
        );
        let sub_fn = Self::make_binop(
            "-",
            IrType::I64,
            IrType::I64,
            crate::ir::Instr::Sub(crate::ir::Operand::Param(0), crate::ir::Operand::Param(1)),
        );
        let mul_fn = Self::make_binop(
            "*",
            IrType::I64,
            IrType::I64,
            crate::ir::Instr::Mul(crate::ir::Operand::Param(0), crate::ir::Operand::Param(1)),
        );
        let div_fn = Self::make_binop(
            "/",
            IrType::I64,
            IrType::I64,
            crate::ir::Instr::SDiv(crate::ir::Operand::Param(0), crate::ir::Operand::Param(1)),
        );
        self.core.functions.push(int_eq);
        self.core.functions.push(add_fn);
        self.core.functions.push(sub_fn);
        self.core.functions.push(mul_fn);
        self.core.functions.push(div_fn);
        self.in_core = true;
        let dn = self.core.functions.len();
        self.cursor = Some(Cursor { in_core: true, func: dn - 1, block: 0 });
        proof {
            let s0 = old(self)@;
            let s2 = spec_install_builtins(s0);
            assert(final(self)@.module.functions =~= s2.module.functions);
            assert(final(self)@.module.globals =~= s2.module.globals);
            assert(final(self)@.module == s2.module);
            assert(final(self)@.core.functions =~= s2.core.functions);
            assert(final(self)@.core.globals =~= s2.core.globals);
            assert(final(self)@.core == s2.core);
            assert(final(self)@.scope =~= s2.scope);
            assert(final(self)@ == s2);
        }
    }

    /// Links the bootstrap module into the primary module: only possible
    /// when no name occurs in both; ownership of its contents transfers.
    fn link_core(&mut self) -> (ok: bool)
        ensures
            if names_disjoint(old(self)@.module, old(self)@.core) {
                ok && final(self)@ == (CgV {
                    module: spec_link(old(self)@.module, old(self)@.core),
                    core: ModuleV {
                        name: old(self)@.core.name,
                        functions: Seq::empty(),
                        globals: Seq::empty(),
                    },
                    in_core: false,
                    cursor: None,
                    ..old(self)@
                })
            } else {
                !ok && *final(self) == *old(self)
            },
    {
        let mut i: usize = 0;
        while i < self.core.functions.len()
            invariant
                *self == *old(self),
                0 <= i <= self.core.functions.len(),
                forall|ii: int, j: int|
                    0 <= ii < self@.module.functions.len() && 0 <= j < i
                        ==> self@.module.functions[ii].name != self@.core.functions[j].name,
            decreases self.core.functions.len() - i,
        {
            if self.module.get_function(self.core.functions[i].name.as_str()).is_some() {
                proof {
                    crate::ir::lemma_find_function_props(
                        self@.module.functions,
                        self@.core.functions[i as int].name,
                    );
                    let k = find_function(
                        self@.module.functions,
                        self@.core.functions[i as int].name,
                    ).unwrap();
                    assert(self@.module.functions[k].name == self@.core.functions[i as int].name);
                    assert(!names_disjoint(self@.module, self@.core));
                }
                return false;
            }
            proof {
                crate::ir::lemma_find_function_props(
                    self@.module.functions,
                    self@.core.functions[i as int].name,
                );
            }
            i = i + 1;
        }
        let mut g: usize = 0;
        while g < self.core.globals.len()
            invariant
                *self == *old(self),
                0 <= g <= self.core.globals.len(),
                names_disjoint(self@.module, self@.core) <==> (forall|ii: int, j: int|
                    0 <= ii < self@.module.globals.len() && 0 <= j < self@.core.globals.len()
                        ==> self@.module.globals[ii].name != self@.core.globals[j].name),
                forall|ii: int, j: int|
                    0 <= ii < self@.module.globals.len() && 0 <= j < g
                        ==> self@.module.globals[ii].name != self@.core.globals[j].name,
            decreases self.core.globals.len() - g,
        {
            if self.module.has_global(self.core.globals[g].name.as_str()) {
                proof {
                    let ii = choose|ii: int|
                        0 <= ii < self@.module.globals.len() && self@.module.globals[ii].name
                            == self@.core.globals[g as int].name;
                    assert(self@.module.globals[ii].name == self@.core.globals[g as int].name);
                    assert(!names_disjoint(self@.module, self@.core));
                }
                return false;
            }
            g = g + 1;
        }
        self.module.functions.append(&mut self.core.functions);
        self.module.globals.append(&mut self.core.globals);
        self.in_core = false;
        self.cursor = None;
        proof {
            let s0 = old(self)@;
            assert(final(self)@.module.functions =~= s0.module.functions + s0.core.functions);
            assert(final(self)@.module.globals =~= s0.module.globals + s0.core.globals);
            assert(final(self)@.module == spec_link(s0.module, s0.core));
            assert(final(self)@.core.functions =~= Seq::<FunctionV>::empty());
            assert(final(self)@.core.globals =~= Seq::<GlobalV>::empty());
            assert(final(self)@.scope =~= s0.scope);
            assert(final(self)@ == (CgV {
                module: spec_link(s0.module, s0.core),
                core: ModuleV {
                    name: s0.core.name,
                    functions: Seq::empty(),
                    globals: Seq::empty(),
                },
                in_core: false,
                cursor: None,
                ..s0
            }));
        }
        true
    }

    /// Lowers a list of top-level nodes in order, skipping end-of-input
    /// markers.
    #[verifier::loop_isolation(false)]
    fn compile_nodes(&mut self, nodes: &Vec<AstNode>) -> (r: Result<(), CompileError>)
        ensures
            ({
                let (s2, r2) = spec_compile_nodes(
                    old(self)@,
                    crate::parser::ast::ast_views(nodes@),
                );
                final(self)@ == s2 && unit_res_view(r) == r2
            }),
    {
        let ghost nv = crate::parser::ast::ast_views(nodes@);
        proof {
            crate::parser::ast::lemma_ast_views_len(nodes@);
            assert(nv.skip(0) =~= nv);
        }
        let mut i: usize = 0;
        while i < nodes.len()
            invariant
                0 <= i <= nodes.len(),
                spec_compile_nodes(old(self)@, nv) == spec_compile_nodes(
                    self@,
                    nv.skip(i as int),
                ),
            decreases nodes.len() - i,
        {
            let ghost tail = nv.skip(i as int);
            proof {
                crate::parser::ast::lemma_ast_views_index(nodes@, i as int);
                assert(tail[0] == nv[i as int]);
                assert(tail.drop_first() =~= nv.skip(i as int + 1));
            }
            match &nodes[i] {
                AstNode::Eoi => {},
                node => {
                    match self.compile_astnode(node) {
                        Err(e) => {
                            return Err(e);
                        },
                        Ok(_) => {},
                    }
                },
            }
            i = i + 1;
        }
        proof {
            assert(nv.skip(i as int).len() == 0);
        }
        Ok(())
    }

    /// The bootstrap step: installs the output primitives and built-in
    /// operators, lowers every top-level definition of the core library
    /// into the bootstrap module, and links it into the primary module so
    /// that user code can call these names as ordinary functions.
    fn add_default_functions(&mut self, core_ast: &Vec<AstNode>) -> (r: Result<(), CompileError>)
        ensures
            ({
                let (s2, r2) = spec_bootstrap(old(self)@, crate::parser::ast::ast_views(core_ast@));
                final(self)@ == s2 && unit_res_view(r) == r2
            }),
    {
        self.install_builtins();
        match self.compile_nodes(core_ast) {
            Err(_) => {
                return Err(CompileError::BootstrapFailure);
            },
            Ok(_) => {},
        }
        if !self.link_core() {
            return Err(CompileError::BootstrapFailure);
        }
        Ok(())
    }

    /// Compiles a whole program: the bootstrap runs once, before any user
    /// definition. The caller supplies the core library's syntax tree;
    /// obtaining and parsing its text is the driver's job.
    pub fn compile(&mut self, ast: AST, core_ast: AST) -> (r: Result<(), CompileError>)
        ensures
            ({
                let (s2, r2) = spec_compile_program(
                    old(self)@,
                    crate::parser::ast::ast_views(ast@),
                    crate::parser::ast::ast_views(core_ast@),
                );
                final(self)@ == s2 && unit_res_view(r) == r2
            }),
    {
        match self.add_default_functions(&core_ast) {
            Err(e) => {
                return Err(e);
            },
            Ok(_) => {},
        }
        self.compile_nodes(&ast)
    }

    /// Locates `main` in the primary module and runs it through the
    /// interpreter with the given step budget.
    pub fn call_main(&self, fuel: u64) -> (r: Result<crate::eval::RuntimeVal, CompileError>)
        ensures
            match r {
                Ok(v) => spec_call_main(self@.module, fuel as nat) == Ok::<
                    crate::eval::RuntimeV,
                    ErrorV,
                >(v@),
                Err(e) => spec_call_main(self@.module, fuel as nat) == Err::<
                    crate::eval::RuntimeV,
                    ErrorV,
                >(e@),
            },
    {
        match self.module.get_function("main") {
            None => Err(CompileError::MissingEntryPoint),
            Some(i) => {
                let args: Vec<crate::eval::RuntimeVal> = Vec::new();
                proof {
                    assert(crate::eval::vals_view(args@) =~= Seq::<crate::eval::RuntimeV>::empty());
                }
                match crate::eval::eval_fn_exec(&self.module, i, args, fuel) {
                    Some(v) => Ok(v),
                    None => Err(CompileError::ExecutionTrap),
                }
            },
        }
    }
}

// ---------------------------------------------------------------------------
// Well-formedness of the compiler state, and its preservation: the cursor's
// module tag agrees with the active module, function names are distinct in
// each module, and global names are distinct in each module. Distinctness
// of the global names is the freshness guarantee for the autogenerated
// names of string and character literals.
// ---------------------------------------------------------------------------
pub open spec fn cg_wf(s: CgV) -> bool {
    &&& match s.cursor {
        Some(c) => c.in_core == s.in_core,
        None => true,
    }
    &&& crate::ir::distinct_function_names(s.module.functions)
    &&& crate::ir::distinct_function_names(s.core.functions)
    &&& crate::ir::distinct_global_names(s.module.globals)
    &&& crate::ir::distinct_global_names(s.core.globals)
}

/// The module that is not active.
pub open spec fn inactive(s: CgV) -> ModuleV {
    if s.in_core {
        s.module
    } else {
        s.core
    }
}

/// Appending an instruction moves no function, renames nothing and leaves
/// the cursor, the scope, the flag and the inactive module alone.
proof fn lemma_emit_wf(s: CgV, instr: InstrV)
    requires
        cg_wf(s),
    ensures
        match spec_emit(s, instr) {
            Some((s2, id)) => cg_wf(s2) && s2.in_core == s.in_core && inactive(s2) == inactive(s)
                && s2.cursor == s.cursor && s2.scope == s.scope && active(s2).globals == active(
                s,
            ).globals && active(s2).functions.len() == active(s).functions.len() && (forall|k: int|
                0 <= k < active(s).functions.len() ==> active(s2).functions[k].name == active(
                    s,
                ).functions[k].name),
            None => true,
        },
{
    match spec_emit(s, instr) {
        Some((s2, id)) => {
            let c = s.cursor.unwrap();
            assert(c.in_core == s.in_core);
            assert forall|k: int| 0 <= k < active(s).functions.len() implies active(
                s2,
            ).functions[k].name == active(s).functions[k].name by {}
        },
        None => {},
    }
}

/// Closing a block has the same frame properties as appending an
/// instruction.
proof fn lemma_terminate_wf(s: CgV, t: TermV)
    requires
        cg_wf(s),
    ensures
        match spec_terminate(s, t) {
            Some(s2) => cg_wf(s2) && s2.in_core == s.in_core && inactive(s2) == inactive(s)
                && s2.cursor == s.cursor && s2.scope == s.scope && active(s2).globals == active(
                s,
            ).globals && active(s2).functions.len() == active(s).functions.len() && (forall|k: int|
                0 <= k < active(s).functions.len() ==> active(s2).functions[k].name == active(
                    s,
                ).functions[k].name),
            None => true,
        },
{
    match spec_terminate(s, t) {
        Some(s2) => {
            let c = s.cursor.unwrap();
            assert(c.in_core == s.in_core);
            assert forall|k: int| 0 <= k < active(s).functions.len() implies active(
                s2,
            ).functions[k].name == active(s).functions[k].name by {}
        },
        None => {},
    }
}

/// Lowering any node preserves well-formedness, never flips the active
/// module, and never touches the inactive module.
pub proof fn lemma_compile_node_wf(s: CgV, node: AstV)
    requires
        cg_wf(s),
    ensures
        ({
            let (s2, r) = spec_compile_node(s, node);
            cg_wf(s2) && s2.in_core == s.in_core && inactive(s2) == inactive(s)
        }),
    decreases ast_height(node), 0int,
{
    match node {
        AstV::Str(x) => {
            lemma_literal_global_fresh(s, x);
        },
        AstV::Char(c) => {
            lemma_literal_global_fresh(s, seq![c]);
        },
        AstV::Fn { name, return_type, args, value } => {
            lemma_compile_function_wf(s, name, *return_type, *args, *value);
        },
        AstV::IfElse { condition, stmt_true, stmt_false } => {
            lemma_compile_conditional_wf(s, *condition, *stmt_true, *stmt_false);
        },
        AstV::Identifier { name, args } => {
            lemma_compile_identifier_wf(s, name, args);
        },
        AstV::InParens(inner) => {
            lemma_compile_parens_wf(s, *inner);
        },
        _ => {},
    }
}

proof fn lemma_compile_args_wf(s: CgV, args: Seq<AstV>)
    requires
        cg_wf(s),
    ensures
        ({
            let (s2, r) = spec_compile_args(s, args);
            cg_wf(s2) && s2.in_core == s.in_core && inactive(s2) == inactive(s)
        }),
    decreases ast_list_height(args), 1int,
{
    if args.len() > 0 {
        let (s1, r1) = spec_compile_node(s, args[0]);
        lemma_compile_node_wf(s, args[0]);
        match r1 {
            Ok(CompiledV::Val { op, ty }) => {
                lemma_compile_args_wf(s1, args.drop_first());
            },
            _ => {},
        }
    }
}

proof fn lemma_compile_identifier_wf(s: CgV, name: Seq<char>, args: Seq<AstV>)
    requires
        cg_wf(s),
    ensures
        ({
            let (s2, r) = spec_compile_identifier(s, name, args);
            cg_wf(s2) && s2.in_core == s.in_core && inactive(s2) == inactive(s)
        }),
    decreases ast_list_height(args), 2int,
{
    match scope_lookup(s.scope, name) {
        Some(_) => {},
        None => {
            let (s1, ra) = spec_compile_args(s, args);
            lemma_compile_args_wf(s, args);
            match ra {
                Ok(compiled) => {
                    match lookup_callee(s1, name) {
                        Some(f) => {
                            if args_match(f, Seq::new(compiled.len(), |i: int| compiled[i].1)) {
                                lemma_emit_wf(
                                    s1,
                                    InstrV::Call {
                                        callee: name,
                                        ret: f.ret,
                                        args: Seq::new(compiled.len(), |i: int| compiled[i].0),
                                        tail: true,
                                    },
                                );
                            }
                        },
                        None => {},
                    }
                },
                Err(_) => {},
            }
        },
    }
}

proof fn lemma_compile_parens_wf(s: CgV, inner: AstV)
    requires
        cg_wf(s),
    ensures
        ({
            let (s2, r) = spec_compile_parens(s, inner);
            cg_wf(s2) && s2.in_core == s.in_core && inactive(s2) == inactive(s)
        }),
    decreases ast_height(inner), 1int,
{
    let (s1, r1) = spec_compile_node(s, inner);
    lemma_compile_node_wf(s, inner);
    match r1 {
        Ok(CompiledV::Val { op, ty }) => {
            lemma_emit_wf(s1, InstrV::Alloca(ty));
            match spec_emit(s1, InstrV::Alloca(ty)) {
                Some((s2, a_id)) => {
                    lemma_emit_wf(s2, InstrV::Store { value: op, ptr: OperandV::Reg(a_id) });
                    match spec_emit(s2, InstrV::Store { value: op, ptr: OperandV::Reg(a_id) }) {
                        Some((s3, _sid)) => {
                            lemma_emit_wf(s3, InstrV::Load { ty, ptr: OperandV::Reg(a_id) });
                        },
                        None => {},
                    }
                },
                None => {},
            }
        },
        _ => {},
    }
}

proof fn lemma_compile_conditional_wf(s: CgV, condition: AstV, stmt_true: AstV, stmt_false: AstV)
    requires
        cg_wf(s),
    ensures
        ({
            let (s2, r) = spec_compile_conditional(s, condition, stmt_true, stmt_false);
            cg_wf(s2) && s2.in_core == s.in_core && inactive(s2) == inactive(s)
        }),
    decreases ast_height(condition) + ast_height(stmt_true) + ast_height(stmt_false), 2int,
{
    let (s1, r1) = spec_compile_node(s, stmt_true);
    lemma_compile_node_wf(s, stmt_true);
    match r1 {
        Ok(CompiledV::Val { op: t_op, ty: t_ty }) => {
            let (s2, r2) = spec_compile_node(s1, condition);
            lemma_compile_node_wf(s1, condition);
            match r2 {
                Ok(CompiledV::Val { op: c_op, ty: c_ty }) => {
                    if c_ty == IrType::I1 {
                        lemma_emit_wf(s2, InstrV::CmpEq(c_op, OperandV::ConstBool(true)));
                        match spec_emit(s2, InstrV::CmpEq(c_op, OperandV::ConstBool(true))) {
                            Some((s3, cmp_id)) => {
                                lemma_compile_conditional_blocks_wf(
                                    s3,
                                    stmt_false,
                                    t_op,
                                    t_ty,
                                    cmp_id,
                                );
                            },
                            None => {},
                        }
                    }
                },
                _ => {},
            }
        },
        _ => {},
    }
}

proof fn lemma_compile_conditional_blocks_wf(
    s3: CgV,
    stmt_false: AstV,
    t_op: OperandV,
    t_ty: IrType,
    cmp_id: usize,
)
    requires
        cg_wf(s3),
    ensures
        ({
            let (s2, r) = spec_compile_conditional_blocks(s3, stmt_false, t_op, t_ty, cmp_id);
            cg_wf(s2) && s2.in_core == s3.in_core && inactive(s2) == inactive(s3)
        }),
    decreases ast_height(stmt_false), 1int,
{
    let am = active(s3);
    let cursor_ok = match s3.cursor {
        Some(c) => c.in_core == s3.in_core && c.func + 1 == am.functions.len(),
        None => false,
    };
    if am.functions.len() == 0 || !cursor_ok {
    } else {
        let lf = (am.functions.len() - 1) as usize;
        let f = am.functions[lf as int];
        if f.blocks.len() + 2 >= usize::MAX {
        } else {
            let f2 = spec_append_block(
                spec_append_block(spec_append_block(f, "then"@), "else"@),
                "ifcont"@,
            );
            let s4 = with_active(
                s3,
                ModuleV { functions: am.functions.update(lf as int, f2), ..am },
            );
            assert(cg_wf(s4)) by {
                assert(forall|k: int|
                    0 <= k < active(s4).functions.len() ==> active(s4).functions[k].name == active(
                        s3,
                    ).functions[k].name);
            }
            let then_i = f.blocks.len() as usize;
            let else_i = (f.blocks.len() + 1) as usize;
            let cont_i = (f.blocks.len() + 2) as usize;
            lemma_terminate_wf(
                s4,
                TermV::CondBr { cond: OperandV::Reg(cmp_id), then_blk: then_i, else_blk: else_i },
            );
            match spec_terminate(
                s4,
                TermV::CondBr { cond: OperandV::Reg(cmp_id), then_blk: then_i, else_blk: else_i },
            ) {
                None => {},
                Some(s5) => {
                    let s6 = CgV {
                        cursor: Some(Cursor { in_core: s5.in_core, func: lf, block: then_i }),
                        ..s5
                    };
                    lemma_terminate_wf(s6, TermV::Br(cont_i));
                    match spec_terminate(s6, TermV::Br(cont_i)) {
                        None => {},
                        Some(s7) => {
                            let s8 = CgV {
                                cursor: Some(
                                    Cursor { in_core: s7.in_core, func: lf, block: else_i },
                                ),
                                ..s7
                            };
                            let (s9, r3) = spec_compile_node(s8, stmt_false);
                            lemma_compile_node_wf(s8, stmt_false);
                            match r3 {
                                Ok(CompiledV::Val { op: f_op, ty: f_ty }) => {
                                    match s9.cursor {
                                        None => {},
                                        Some(c9) => {
                                            let else_exit = c9.block;
                                            lemma_terminate_wf(s9, TermV::Br(cont_i));
                                            match spec_terminate(s9, TermV::Br(cont_i)) {
                                                None => {},
                                                Some(s10) => {
                                                    if f_ty == t_ty {
                                                        let s11 = CgV {
                                                            cursor: Some(
                                                                Cursor {
                                                                    in_core: s10.in_core,
                                                                    func: lf,
                                                                    block: cont_i,
                                                                },
                                                            ),
                                                            ..s10
                                                        };
                                                        lemma_emit_wf(
                                                            s11,
                                                            InstrV::Phi {
                                                                ty: t_ty,
                                                                incoming: seq![
                                                                    (t_op, then_i),
                                                                    (f_op, else_exit),
                                                                ],
                                                            },
                                                        );
                                                    }
                                                },
                                            }
                                        },
                                    }
                                },
                                _ => {},
                            }
                        },
                    }
                },
            }
        }
    }
}

proof fn lemma_compile_function_wf(
    s: CgV,
    name: Seq<char>,
    return_type: AstV,
    args: AstV,
    value: AstV,
)
    requires
        cg_wf(s),
    ensures
        ({
            let (s2, r) = spec_compile_function(s, name, return_type, args, value);
            cg_wf(s2) && s2.in_core == s.in_core && inactive(s2) == inactive(s)
        }),
    decreases ast_height(value), 1int,
{
    match args {
        AstV::FnArgs(pairs) => {
            match spec_compile_type(return_type) {
                Ok(ret_ty) => {
                    match spec_param_list(pairs) {
                        Ok(params) => {
                            if find_function(active(s).functions, name) is Some {
                            } else {
                                crate::ir::lemma_find_function_props(active(s).functions, name);
                                let fidx = active(s).functions.len() as usize;
                                let f = FunctionV {
                                    name,
                                    params,
                                    ret: ret_ty,
                                    external: false,
                                    variadic: false,
                                    blocks: seq![
                                        BlockV {
                                            label: "entry"@,
                                            instrs: Seq::empty(),
                                            terminator: None,
                                        },
                                    ],
                                    next_reg: 0,
                                };
                                let s1 = with_active(
                                    s,
                                    ModuleV {
                                        functions: active(s).functions.push(f),
                                        ..active(s)
                                    },
                                );
                                let s2 = CgV {
                                    scope: scope_of_params(params),
                                    cursor: Some(
                                        Cursor { in_core: s1.in_core, func: fidx, block: 0 },
                                    ),
                                    ..s1
                                };
                                assert(cg_wf(s2)) by {
                                    assert(forall|k: int|
                                        0 <= k < active(s).functions.len() ==> active(
                                            s2,
                                        ).functions[k] == active(s).functions[k]);
                                }
                                let (s3, rb) = spec_compile_node(s2, value);
                                lemma_compile_node_wf(s2, value);
                                match rb {
                                    Ok(CompiledV::Val { op, ty }) => {
                                        if ty == ret_ty {
                                            lemma_terminate_wf(s3, TermV::Ret(op));
                                        }
                                    },
                                    _ => {},
                                }
                            }
                        },
                        Err(_) => {},
                    }
                },
                Err(_) => {},
            }
        },
        _ => {},
    }
}

/// Lowering a string or character literal binds exactly one new global,
/// under a name that no existing global of the active module carries: the
/// freshness guarantee for autogenerated literal names.
pub proof fn lemma_literal_global_fresh(s: CgV, text: Seq<char>)
    ensures
        ({
            let (s2, r) = spec_compile_literal_global(s, text);
            let gname = dec_seq(first_free(active(s).globals));
            &&& !global_named(active(s).globals, gname)
            &&& active(s2).globals == active(s).globals.push(GlobalV { name: gname, text })
            &&& active(s2).functions == active(s).functions
            &&& inactive(s2) == inactive(s)
            &&& s2.in_core == s.in_core
            &&& s2.cursor == s.cursor
            &&& s2.scope == s.scope
            &&& r == Ok::<CompiledV, ErrorV>(
                CompiledV::Val { op: OperandV::Global(gname), ty: IrType::Ptr },
            )
            &&& (crate::ir::distinct_global_names(active(s).globals)
                ==> crate::ir::distinct_global_names(active(s2).globals))
        }),
{
    lemma_first_free_props(active(s).globals, 0);
    let gname = dec_seq(first_free(active(s).globals));
    let g2 = active(s).globals.push(GlobalV { name: gname, text });
    if crate::ir::distinct_global_names(active(s).globals) {
        assert forall|i: int, j: int| 0 <= i < j < g2.len() implies g2[i].name != g2[j].name by {
            if j == g2.len() - 1 {
                assert(g2[i] == active(s).globals[i]);
                if g2[i].name == gname {
                    assert(global_named(active(s).globals, gname));
                }
            }
        }
    }
}

/// Lowering a list of nodes preserves well-formedness and the inactive
/// module.
pub proof fn lemma_compile_nodes_wf(s: CgV, nodes: Seq<AstV>)
    requires
        cg_wf(s),
    ensures
        ({
            let (s2, r) = spec_compile_nodes(s, nodes);
            cg_wf(s2) && s2.in_core == s.in_core && inactive(s2) == inactive(s)
        }),
    decreases nodes.len(),
{
    if nodes.len() > 0 {
        if nodes[0] is Eoi {
            lemma_compile_nodes_wf(s, nodes.drop_first());
        } else {
            let (s1, r1) = spec_compile_node(s, nodes[0]);
            lemma_compile_node_wf(s, nodes[0]);
            match r1 {
                Ok(_) => {
                    lemma_compile_nodes_wf(s1, nodes.drop_first());
                },
                Err(_) => {},
            }
        }
    }
}

} // verus!
