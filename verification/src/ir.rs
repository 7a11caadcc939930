//! The SSA intermediate representation that the code generator builds: typed
//! operands, instructions paired with the register they define, basic blocks
//! that end in exactly one terminator, functions, string globals and modules.
use crate::text::str_eq;
use vstd::prelude::*;

verus! {

/// The scalar representation classes the backend supports: a 64-bit signed
/// integer, a 1-bit boolean, and a byte pointer (strings and characters).
#[derive(Debug, Clone, Copy, PartialEq, Eq, Structural)]
pub enum IrType {
    I64,
    I1,
    Ptr,
}

/// An SSA operand: a constant, the address of a named global, the n-th
/// parameter of the enclosing function, or the register a previous
/// instruction defined.
#[derive(Debug)]
pub enum Operand {
    ConstI64(i64),
    ConstBool(bool),
    Global(String),
    Param(usize),
    Reg(usize),
}

impl Clone for Operand {
    fn clone(&self) -> (r: Self)
        ensures
            r == *self,
    {
        match self {
            Operand::ConstI64(n) => Operand::ConstI64(*n),
            Operand::ConstBool(b) => Operand::ConstBool(*b),
            Operand::Global(g) => Operand::Global(g.clone()),
            Operand::Param(i) => Operand::Param(*i),
            Operand::Reg(r) => Operand::Reg(*r),
        }
    }
}

/// Mathematical image of an `Operand`.
#[verifier::ext_equal]
pub enum OperandV {
    ConstI64(i64),
    ConstBool(bool),
    Global(Seq<char>),
    Param(usize),
    Reg(usize),
}

impl View for Operand {
    type V = OperandV;

    open spec fn view(&self) -> OperandV {
        match self {
            Operand::ConstI64(n) => OperandV::ConstI64(*n),
            Operand::ConstBool(b) => OperandV::ConstBool(*b),
            Operand::Global(g) => OperandV::Global(g@),
            Operand::Param(i) => OperandV::Param(*i),
            Operand::Reg(r) => OperandV::Reg(*r),
        }
    }
}

/// One SSA instruction. The register it defines is stored beside it in the
/// block. Arithmetic wraps as 64-bit two's complement; `SDiv` is signed
/// division truncating toward zero.
#[derive(Debug)]
pub enum Instr {
    Add(Operand, Operand),
    Sub(Operand, Operand),
    Mul(Operand, Operand),
    SDiv(Operand, Operand),
    CmpEq(Operand, Operand),
    Call { callee: String, ret: IrType, args: Vec<Operand>, tail: bool },
    Phi { ty: IrType, incoming: Vec<(Operand, usize)> },
    Alloca(IrType),
    Store { value: Operand, ptr: Operand },
    Load { ty: IrType, ptr: Operand },
}

/// Mathematical image of an `Instr`.
#[verifier::ext_equal]
pub enum InstrV {
    Add(OperandV, OperandV),
    Sub(OperandV, OperandV),
    Mul(OperandV, OperandV),
    SDiv(OperandV, OperandV),
    CmpEq(OperandV, OperandV),
    Call { callee: Seq<char>, ret: IrType, args: Seq<OperandV>, tail: bool },
    Phi { ty: IrType, incoming: Seq<(OperandV, usize)> },
    Alloca(IrType),
    Store { value: OperandV, ptr: OperandV },
    Load { ty: IrType, ptr: OperandV },
}

impl View for Instr {
    type V = InstrV;

    open spec fn view(&self) -> InstrV {
        match self {
            Instr::Add(a, b) => InstrV::Add(a@, b@),
            Instr::Sub(a, b) => InstrV::Sub(a@, b@),
            Instr::Mul(a, b) => InstrV::Mul(a@, b@),
            Instr::SDiv(a, b) => InstrV::SDiv(a@, b@),
            Instr::CmpEq(a, b) => InstrV::CmpEq(a@, b@),
            Instr::Call { callee, ret, args, tail } => InstrV::Call {
                callee: callee@,
                ret: *ret,
                args: Seq::new(args@.len(), |i: int| args@[i]@),
                tail: *tail,
            },
            Instr::Phi { ty, incoming } => InstrV::Phi {
                ty: *ty,
                incoming: Seq::new(incoming@.len(), |i: int| (incoming@[i].0@, incoming@[i].1)),
            },
            Instr::Alloca(t) => InstrV::Alloca(*t),
            Instr::Store { value, ptr } => InstrV::Store { value: value@, ptr: ptr@ },
            Instr::Load { ty, ptr } => InstrV::Load { ty: *ty, ptr: ptr@ },
        }
    }
}

/// What ends a basic block: a conditional branch, an unconditional branch,
/// or a return.
#[derive(Debug)]
pub enum Terminator {
    CondBr { cond: Operand, then_blk: usize, else_blk: usize },
    Br(usize),
    Ret(Operand),
}

/// Mathematical image of a `Terminator`.
#[verifier::ext_equal]
pub enum TermV {
    CondBr { cond: OperandV, then_blk: usize, else_blk: usize },
    Br(usize),
    Ret(OperandV),
}

impl View for Terminator {
    type V = TermV;

    open spec fn view(&self) -> TermV {
        match self {
            Terminator::CondBr { cond, then_blk, else_blk } => TermV::CondBr {
                cond: cond@,
                then_blk: *then_blk,
                else_blk: *else_blk,
            },
            Terminator::Br(b) => TermV::Br(*b),
            Terminator::Ret(v) => TermV::Ret(v@),
        }
    }
}

/// A basic block: a label, the instructions in order (each with the register
/// it defines), and the terminator once the block is closed.
#[derive(Debug)]
pub struct Block {
    pub label: String,
    pub instrs: Vec<(usize, Instr)>,
    pub terminator: Option<Terminator>,
}

/// Mathematical image of a `Block`.
#[verifier::ext_equal]
pub struct BlockV {
    pub label: Seq<char>,
    pub instrs: Seq<(usize, InstrV)>,
    pub terminator: Option<TermV>,
}

impl View for Block {
    type V = BlockV;

    open spec fn view(&self) -> BlockV {
        BlockV {
            label: self.label@,
            instrs: Seq::new(self.instrs@.len(), |i: int| (self.instrs@[i].0, self.instrs@[i].1@)),
            terminator: match &self.terminator {
                Some(t) => Some(t@),
                None => None,
            },
        }
    }
}

/// An IR function: parameter names are kept so that the code generator can
/// resolve identifiers against them. An `external` function has no blocks
/// and is linked in at run time; a `variadic` one accepts extra arguments
/// after its declared parameters.
#[derive(Debug)]
pub struct IrFunction {
    pub name: String,
    pub params: Vec<(String, IrType)>,
    pub ret: IrType,
    pub external: bool,
    pub variadic: bool,
    pub blocks: Vec<Block>,
    pub next_reg: usize,
}

/// Mathematical image of an `IrFunction`.
#[verifier::ext_equal]
pub struct FunctionV {
    pub name: Seq<char>,
    pub params: Seq<(Seq<char>, IrType)>,
    pub ret: IrType,
    pub external: bool,
    pub variadic: bool,
    pub blocks: Seq<BlockV>,
    pub next_reg: usize,
}

impl View for IrFunction {
    type V = FunctionV;

    open spec fn view(&self) -> FunctionV {
        FunctionV {
            name: self.name@,
            params: Seq::new(self.params@.len(), |i: int| (self.params@[i].0@, self.params@[i].1)),
            ret: self.ret,
            external: self.external,
            variadic: self.variadic,
            blocks: Seq::new(self.blocks@.len(), |i: int| self.blocks@[i]@),
            next_reg: self.next_reg,
        }
    }
}

/// A named global constant holding the NUL-terminated bytes of `text`.
#[derive(Debug)]
pub struct GlobalDef {
    pub name: String,
    pub text: String,
}

/// Mathematical image of a `GlobalDef`.
#[verifier::ext_equal]
pub struct GlobalV {
    pub name: Seq<char>,
    pub text: Seq<char>,
}

impl View for GlobalDef {
    type V = GlobalV;

    open spec fn view(&self) -> GlobalV {
        GlobalV { name: self.name@, text: self.text@ }
    }
}

/// A module: an ordered function table and the string globals.
#[derive(Debug)]
pub struct IrModule {
    pub name: String,
    pub functions: Vec<IrFunction>,
    pub globals: Vec<GlobalDef>,
}

/// Mathematical image of an `IrModule`.
#[verifier::ext_equal]
pub struct ModuleV {
    pub name: Seq<char>,
    pub functions: Seq<FunctionV>,
    pub globals: Seq<GlobalV>,
}

impl View for IrModule {
    type V = ModuleV;

    open spec fn view(&self) -> ModuleV {
        ModuleV {
            name: self.name@,
            functions: Seq::new(self.functions@.len(), |i: int| self.functions@[i]@),
            globals: Seq::new(self.globals@.len(), |i: int| self.globals@[i]@),
        }
    }
}

/// The index of the first function with the given name, if any.
pub open spec fn find_function(fns: Seq<FunctionV>, name: Seq<char>) -> Option<int>
    decreases fns.len(),
{
    if fns.len() == 0 {
        None
    } else if fns[0].name == name {
        Some(0int)
    } else {
        match find_function(fns.drop_first(), name) {
            Some(i) => Some(i + 1),
            None => None,
        }
    }
}

pub proof fn lemma_find_function_props(fns: Seq<FunctionV>, name: Seq<char>)
    ensures
        match find_function(fns, name) {
            Some(i) => 0 <= i < fns.len() && fns[i].name == name && (forall|j: int|
                0 <= j < i ==> fns[j].name != name),
            None => forall|j: int| 0 <= j < fns.len() ==> fns[j].name != name,
        },
    decreases fns.len(),
{
    if fns.len() > 0 && fns[0].name != name {
        let rest = fns.drop_first();
        lemma_find_function_props(rest, name);
        match find_function(rest, name) {
            Some(i) => {
                assert(rest[i] == fns[i + 1]);
                assert forall|j: int| 0 <= j < i + 1 implies fns[j].name != name by {
                    if j > 0 {
                        assert(rest[j - 1] == fns[j]);
                    }
                }
            },
            None => {
                assert forall|j: int| 0 <= j < fns.len() implies fns[j].name != name by {
                    if j > 0 {
                        assert(rest[j - 1] == fns[j]);
                    }
                }
            },
        }
    }
}

/// Whether some global carries this name.
pub open spec fn global_named(globals: Seq<GlobalV>, name: Seq<char>) -> bool {
    exists|i: int| 0 <= i < globals.len() && globals[i].name == name
}

/// Function names are pairwise distinct.
pub open spec fn distinct_function_names(fns: Seq<FunctionV>) -> bool {
    forall|i: int, j: int| 0 <= i < j < fns.len() ==> fns[i].name != fns[j].name
}

/// Global names are pairwise distinct.
pub open spec fn distinct_global_names(globals: Seq<GlobalV>) -> bool {
    forall|i: int, j: int| 0 <= i < j < globals.len() ==> globals[i].name != globals[j].name
}

/// The module-level well-formedness the code generator maintains: no two
/// functions and no two globals share a name.
pub open spec fn module_wf(m: ModuleV) -> bool {
    &&& distinct_function_names(m.functions)
    &&& distinct_global_names(m.globals)
}

impl IrModule {
    /// Looks a function up by name: the index of its definition, if any.
    pub fn get_function(&self, name: &str) -> (r: Option<usize>)
        ensures
            match r {
                Some(i) => find_function(self@.functions, name@) == Some(i as int),
                None => find_function(self@.functions, name@) is None,
            },
    {
        let mut i: usize = 0;
        while i < self.functions.len()
            invariant
                0 <= i <= self.functions.len(),
                forall|j: int| 0 <= j < i ==> self@.functions[j].name != name@,
            decreases self.functions.len() - i,
        {
            if str_eq(self.functions[i].name.as_str(), name) {
                proof {
                    lemma_find_function_props(self@.functions, name@);
                    if find_function(self@.functions, name@) is None {
                        assert(self@.functions[i as int].name == name@);
                    }
                    let k = find_function(self@.functions, name@).unwrap();
                    assert(k == i as int) by {
                        if k < i as int {
                            assert(self@.functions[k].name != name@);
                        }
                        if k > i as int {
                            assert(self@.functions[i as int].name != name@);
                        }
                    }
                }
                return Some(i);
            }
            i = i + 1;
        }
        proof {
            lemma_find_function_props(self@.functions, name@);
            if find_function(self@.functions, name@) is Some {
                let k = find_function(self@.functions, name@).unwrap();
                assert(self@.functions[k].name != name@);
            }
        }
        None
    }

    /// Whether some global of this module carries the given name.
    pub fn has_global(&self, name: &str) -> (r: bool)
        ensures
            r == global_named(self@.globals, name@),
    {
        let mut i: usize = 0;
        while i < self.globals.len()
            invariant
                0 <= i <= self.globals.len(),
                forall|j: int| 0 <= j < i ==> self@.globals[j].name != name@,
            decreases self.globals.len() - i,
        {
            if str_eq(self.globals[i].name.as_str(), name) {
                proof {
                    assert(self@.globals[i as int].name == name@);
                }
                return true;
            }
            i = i + 1;
        }
        false
    }
}

} // verus!
