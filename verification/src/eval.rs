//! An interpreter for the SSA intermediate representation. The meaning of a
//! program is fixed by the spec-level evaluator (`eval_fn` and friends); the
//! executable interpreter is verified to return exactly what the spec
//! evaluator says, for every module and every step budget.
//!
//! Evaluation is dynamically checked: an ill-formed program (an unset
//! register, a branch out of range, a type confusion, division by zero or
//! overflowing division) evaluates to `None`, as does running out of the
//! step budget. A call to an `external` function evaluates to the integer
//! zero: its real effect happens outside the interpreter's scope.
use crate::ir::{find_function, FunctionV, Instr, InstrV, IrFunction, IrModule, ModuleV, Operand, OperandV, TermV, Terminator};
use vstd::prelude::*;
use vstd::wrapping::i64_specs;

verus! {

/// A value the interpreter computes: an integer, a boolean bit, the address
/// of a named global, or the address of a stack slot of the current frame.
#[derive(Debug, PartialEq)]
pub enum RuntimeVal {
    I64(i64),
    Bool(bool),
    GlobalPtr(String),
    SlotPtr(usize),
}

/// Mathematical image of a `RuntimeVal`.
#[verifier::ext_equal]
pub enum RuntimeV {
    I64(i64),
    Bool(bool),
    GlobalPtr(Seq<char>),
    SlotPtr(usize),
}

impl View for RuntimeVal {
    type V = RuntimeV;

    open spec fn view(&self) -> RuntimeV {
        match self {
            RuntimeVal::I64(n) => RuntimeV::I64(*n),
            RuntimeVal::Bool(b) => RuntimeV::Bool(*b),
            RuntimeVal::GlobalPtr(g) => RuntimeV::GlobalPtr(g@),
            RuntimeVal::SlotPtr(s) => RuntimeV::SlotPtr(*s),
        }
    }
}

impl Clone for RuntimeVal {
    fn clone(&self) -> (r: Self)
        ensures
            r == *self,
    {
        match self {
            RuntimeVal::I64(n) => RuntimeVal::I64(*n),
            RuntimeVal::Bool(b) => RuntimeVal::Bool(*b),
            RuntimeVal::GlobalPtr(g) => RuntimeVal::GlobalPtr(g.clone()),
            RuntimeVal::SlotPtr(s) => RuntimeVal::SlotPtr(*s),
        }
    }
}

/// Lifts an optional runtime value to its image.
pub open spec fn rt_opt(r: Option<RuntimeVal>) -> Option<RuntimeV> {
    match r {
        Some(v) => Some(v@),
        None => None,
    }
}

/// One activation record: the call's arguments, the registers defined so
/// far, and the stack slots the frame's `Alloca`s own.
pub struct Frame {
    pub args: Vec<RuntimeVal>,
    pub regs: Vec<Option<RuntimeVal>>,
    pub mem: Vec<Option<RuntimeVal>>,
}

/// Mathematical image of a `Frame`.
#[verifier::ext_equal]
pub struct FrameV {
    pub args: Seq<RuntimeV>,
    pub regs: Seq<Option<RuntimeV>>,
    pub mem: Seq<Option<RuntimeV>>,
}

impl View for Frame {
    type V = FrameV;

    open spec fn view(&self) -> FrameV {
        FrameV {
            args: Seq::new(self.args@.len(), |i: int| self.args@[i]@),
            regs: Seq::new(self.regs@.len(), |i: int| rt_opt(self.regs@[i])),
            mem: Seq::new(self.mem@.len(), |i: int| rt_opt(self.mem@[i])),
        }
    }
}

/// The value of an operand in a frame.
pub open spec fn eval_operand(frame: FrameV, op: OperandV) -> Option<RuntimeV> {
    match op {
        OperandV::ConstI64(n) => Some(RuntimeV::I64(n)),
        OperandV::ConstBool(b) => Some(RuntimeV::Bool(b)),
        OperandV::Global(g) => Some(RuntimeV::GlobalPtr(g)),
        OperandV::Param(i) => if i < frame.args.len() {
            Some(frame.args[i as int])
        } else {
            None
        },
        OperandV::Reg(r) => if r < frame.regs.len() {
            frame.regs[r as int]
        } else {
            None
        },
    }
}

/// Signed division truncating toward zero; `None` on a zero divisor or on
/// the one overflowing case.
pub open spec fn sdiv_i64(a: i64, b: i64) -> Option<i64> {
    if b == 0 {
        None
    } else {
        let x = a as int;
        let d = b as int;
        let output = if x == 0 {
            0int
        } else if x > 0 && d > 0 {
            x / d
        } else if x < 0 && d < 0 {
            ((x * -1) / (d * -1))
        } else if x < 0 {
            ((x * -1) / d) * -1
        } else {
            (x / (d * -1)) * -1
        };
        if output < i64::MIN || output > i64::MAX {
            None
        } else {
            Some(output as i64)
        }
    }
}

/// The values of a list of operands, all or nothing.
pub open spec fn eval_operands(frame: FrameV, ops: Seq<OperandV>) -> Option<Seq<RuntimeV>>
    decreases ops.len(),
{
    if ops.len() == 0 {
        Some(Seq::empty())
    } else {
        match eval_operand(frame, ops[0]) {
            None => None,
            Some(v) => match eval_operands(frame, ops.drop_first()) {
                None => None,
                Some(rest) => Some(seq![v] + rest),
            },
        }
    }
}

/// The first phi incoming that names the predecessor block.
pub open spec fn phi_pick(incoming: Seq<(OperandV, usize)>, pred: usize) -> Option<OperandV>
    decreases incoming.len(),
{
    if incoming.len() == 0 {
        None
    } else if incoming[0].1 == pred {
        Some(incoming[0].0)
    } else {
        phi_pick(incoming.drop_first(), pred)
    }
}

/// Writes the value an instruction defines into its register.
pub open spec fn set_reg(frame: FrameV, id: usize, v: RuntimeV) -> Option<FrameV> {
    if id < frame.regs.len() {
        Some(FrameV { regs: frame.regs.update(id as int, Some(v)), ..frame })
    } else {
        None
    }
}

/// Runs one instruction; the new frame, or `None` when evaluation is stuck
/// or the step budget ran out inside a call.
pub open spec fn eval_instr(
    m: ModuleV,
    frame: FrameV,
    id: usize,
    instr: InstrV,
    pred: Option<usize>,
    fuel: nat,
) -> Option<FrameV>
    decreases fuel, 0int, 0int,
{
    match instr {
        InstrV::Add(a, b) => match (eval_operand(frame, a), eval_operand(frame, b)) {
            (Some(RuntimeV::I64(x)), Some(RuntimeV::I64(y))) => set_reg(
                frame,
                id,
                RuntimeV::I64(i64_specs::wrapping_add(x, y)),
            ),
            _ => None,
        },
        InstrV::Sub(a, b) => match (eval_operand(frame, a), eval_operand(frame, b)) {
            (Some(RuntimeV::I64(x)), Some(RuntimeV::I64(y))) => set_reg(
                frame,
                id,
                RuntimeV::I64(i64_specs::wrapping_sub(x, y)),
            ),
            _ => None,
        },
        InstrV::Mul(a, b) => match (eval_operand(frame, a), eval_operand(frame, b)) {
            (Some(RuntimeV::I64(x)), Some(RuntimeV::I64(y))) => set_reg(
                frame,
                id,
                RuntimeV::I64(i64_specs::wrapping_mul(x, y)),
            ),
            _ => None,
        },
        InstrV::SDiv(a, b) => match (eval_operand(frame, a), eval_operand(frame, b)) {
            (Some(RuntimeV::I64(x)), Some(RuntimeV::I64(y))) => match sdiv_i64(x, y) {
                Some(q) => set_reg(frame, id, RuntimeV::I64(q)),
                None => None,
            },
            _ => None,
        },
        InstrV::CmpEq(a, b) => match (eval_operand(frame, a), eval_operand(frame, b)) {
            (Some(RuntimeV::I64(x)), Some(RuntimeV::I64(y))) => set_reg(
                frame,
                id,
                RuntimeV::Bool(x == y),
            ),
            (Some(RuntimeV::Bool(x)), Some(RuntimeV::Bool(y))) => set_reg(
                frame,
                id,
                RuntimeV::Bool(x == y),
            ),
            _ => None,
        },
        InstrV::Call { callee, ret: _, args, tail: _ } => match eval_operands(frame, args) {
            None => None,
            Some(argvals) => match find_function(m.functions, callee) {
                None => None,
                Some(fidx) => if m.functions[fidx].external {
                    set_reg(frame, id, RuntimeV::I64(0))
                } else if fuel == 0 {
                    None
                } else {
                    match eval_fn(m, fidx, argvals, (fuel - 1) as nat) {
                        None => None,
                        Some(v) => set_reg(frame, id, v),
                    }
                },
            },
        },
        InstrV::Phi { ty: _, incoming } => match pred {
            None => None,
            Some(p) => match phi_pick(incoming, p) {
                None => None,
                Some(op) => match eval_operand(frame, op) {
                    None => None,
                    Some(v) => set_reg(frame, id, v),
                },
            },
        },
        InstrV::Alloca(_) => if id < frame.mem.len() {
            set_reg(frame, id, RuntimeV::SlotPtr(id))
        } else {
            None
        },
        InstrV::Store { value, ptr } => match (eval_operand(frame, value), eval_operand(
            frame,
            ptr,
        )) {
            (Some(v), Some(RuntimeV::SlotPtr(s))) => if s < frame.mem.len() {
                Some(FrameV { mem: frame.mem.update(s as int, Some(v)), ..frame })
            } else {
                None
            },
            _ => None,
        },
        InstrV::Load { ty: _, ptr } => match eval_operand(frame, ptr) {
            Some(RuntimeV::SlotPtr(s)) => if s < frame.mem.len() {
                match frame.mem[s as int] {
                    Some(v) => set_reg(frame, id, v),
                    None => None,
                }
            } else {
                None
            },
            _ => None,
        },
    }
}

/// Runs a block's instructions in order.
pub open spec fn eval_instrs(
    m: ModuleV,
    frame: FrameV,
    instrs: Seq<(usize, InstrV)>,
    pred: Option<usize>,
    fuel: nat,
) -> Option<FrameV>
    decreases fuel, 1int, instrs.len(),
{
    if instrs.len() == 0 {
        Some(frame)
    } else {
        match eval_instr(m, frame, instrs[0].0, instrs[0].1, pred, fuel) {
            None => None,
            Some(f2) => eval_instrs(m, f2, instrs.drop_first(), pred, fuel),
        }
    }
}

/// Runs a function body from block `b`, arriving from `pred`.
pub open spec fn eval_block(
    m: ModuleV,
    f: FunctionV,
    b: usize,
    pred: Option<usize>,
    frame: FrameV,
    fuel: nat,
) -> Option<RuntimeV>
    decreases fuel, 2int, 0int,
{
    if b >= f.blocks.len() {
        None
    } else {
        let blk = f.blocks[b as int];
        match eval_instrs(m, frame, blk.instrs, pred, fuel) {
            None => None,
            Some(f2) => match blk.terminator {
                None => None,
                Some(TermV::Ret(op)) => eval_operand(f2, op),
                Some(TermV::Br(t)) => if fuel == 0 {
                    None
                } else {
                    eval_block(m, f, t, Some(b), f2, (fuel - 1) as nat)
                },
                Some(TermV::CondBr { cond, then_blk, else_blk }) => match eval_operand(f2, cond) {
                    Some(RuntimeV::Bool(c)) => if fuel == 0 {
                        None
                    } else {
                        eval_block(
                            m,
                            f,
                            if c {
                                then_blk
                            } else {
                                else_blk
                            },
                            Some(b),
                            f2,
                            (fuel - 1) as nat,
                        )
                    },
                    _ => None,
                },
            },
        }
    }
}

/// The fresh frame a call starts with.
pub open spec fn init_frame(f: FunctionV, argvals: Seq<RuntimeV>) -> FrameV {
    FrameV {
        args: argvals,
        regs: Seq::new(f.next_reg as nat, |i: int| None),
        mem: Seq::new(f.next_reg as nat, |i: int| None),
    }
}

/// Calls the function at `fidx` on the given arguments. `None` when the
/// index or arity is wrong, the function is external, evaluation gets
/// stuck, or the step budget runs out.
pub open spec fn eval_fn(m: ModuleV, fidx: int, argvals: Seq<RuntimeV>, fuel: nat) -> Option<
    RuntimeV,
>
    decreases fuel, 3int, 0int,
{
    if 0 <= fidx < m.functions.len() {
        let f = m.functions[fidx];
        if f.external || argvals.len() != f.params.len() {
            None
        } else {
            eval_block(m, f, 0, None, init_frame(f, argvals), fuel)
        }
    } else {
        None
    }
}

/// Calls the function with the given name.
pub open spec fn run_function(m: ModuleV, name: Seq<char>, argvals: Seq<RuntimeV>, fuel: nat) -> Option<RuntimeV> {
    match find_function(m.functions, name) {
        None => None,
        Some(fidx) => eval_fn(m, fidx, argvals, fuel),
    }
}

/// Lifts a list of runtime values to their images.
pub open spec fn vals_view(s: Seq<RuntimeVal>) -> Seq<RuntimeV> {
    Seq::new(s.len(), |i: int| s[i]@)
}

/// Reads one operand of the current frame.
fn eval_operand_exec(frame: &Frame, op: &Operand) -> (r: Option<RuntimeVal>)
    ensures
        rt_opt(r) == eval_operand(frame@, op@),
{
    match op {
        Operand::ConstI64(n) => Some(RuntimeVal::I64(*n)),
        Operand::ConstBool(b) => Some(RuntimeVal::Bool(*b)),
        Operand::Global(g) => Some(RuntimeVal::GlobalPtr(g.clone())),
        Operand::Param(i) => if *i < frame.args.len() {
            Some(frame.args[*i].clone())
        } else {
            None
        },
        Operand::Reg(r) => if *r < frame.regs.len() {
            match &frame.regs[*r] {
                Some(v) => Some(v.clone()),
                None => None,
            }
        } else {
            None
        },
    }
}

/// Reads a whole argument list, left to right.
fn eval_operands_exec(frame: &Frame, ops: &Vec<Operand>) -> (r: Option<Vec<RuntimeVal>>)
    ensures
        match r {
            Some(vs) => eval_operands(frame@, Seq::new(ops@.len(), |i: int| ops@[i]@)) == Some(
                vals_view(vs@),
            ),
            None => eval_operands(frame@, Seq::new(ops@.len(), |i: int| ops@[i]@)) is None,
        },
{
    let ghost opsv = Seq::new(ops@.len(), |i: int| ops@[i]@);
    let mut vs: Vec<RuntimeVal> = Vec::new();
    let mut i: usize = 0;
    proof {
        assert(opsv.skip(0) =~= opsv);
    }
    while i < ops.len()
        invariant
            0 <= i <= ops.len(),
            opsv == Seq::new(ops@.len(), |k: int| ops@[k]@),
            vs@.len() == i,
            eval_operands(frame@, opsv) == match eval_operands(frame@, opsv.skip(i as int)) {
                None => None::<Seq<RuntimeV>>,
                Some(rest) => Some(vals_view(vs@) + rest),
            },
        decreases ops.len() - i,
    {
        let ghost tail = opsv.skip(i as int);
        proof {
            assert(tail.len() > 0);
            assert(tail[0] == opsv[i as int]);
            assert(tail.drop_first() =~= opsv.skip(i as int + 1));
        }
        match eval_operand_exec(frame, &ops[i]) {
            None => {
                proof {
                    assert(eval_operand(frame@, opsv[i as int]) is None);
                    assert(eval_operands(frame@, tail) is None);
                }
                return None;
            },
            Some(v) => {
                let ghost oldvs = vs@;
                vs.push(v);
                proof {
                    assert(vals_view(vs@) =~= vals_view(oldvs).push(v@));
                    assert(eval_operand(frame@, opsv[i as int]) == Some(v@));
                    if eval_operands(frame@, opsv.skip(i as int + 1)) is Some {
                        let rest2 = eval_operands(frame@, opsv.skip(i as int + 1)).unwrap();
                        assert(eval_operands(frame@, tail) == Some(seq![v@] + rest2));
                        assert(vals_view(oldvs) + (seq![v@] + rest2) =~= vals_view(vs@) + rest2);
                    }
                }
            },
        }
        i = i + 1;
    }
    proof {
        assert(opsv.skip(i as int).len() == 0);
        assert(eval_operands(frame@, opsv.skip(i as int)) == Some(Seq::<RuntimeV>::empty()));
        assert(vals_view(vs@) + Seq::<RuntimeV>::empty() =~= vals_view(vs@));
    }
    Some(vs)
}

/// Stores the value an instruction defined; reports whether the register
/// exists.
fn set_reg_exec(frame: &mut Frame, id: usize, v: RuntimeVal) -> (ok: bool)
    ensures
        match set_reg(old(frame)@, id, v@) {
            Some(f2) => ok && final(frame)@ == f2,
            None => !ok && *final(frame) == *old(frame),
        },
{
    if id < frame.regs.len() {
        frame.regs.set(id, Some(v));
        proof {
            assert(final(frame)@.regs =~= old(frame)@.regs.update(id as int, Some(v@)));
            assert(final(frame)@ == set_reg(old(frame)@, id, v@).unwrap());
        }
        true
    } else {
        false
    }
}

/// Runs one instruction against the frame.
fn eval_instr_exec(
    m: &IrModule,
    frame: &mut Frame,
    id: usize,
    instr: &Instr,
    pred: Option<usize>,
    fuel: u64,
) -> (ok: bool)
    ensures
        match eval_instr(m@, old(frame)@, id, instr@, pred, fuel as nat) {
            Some(f2) => ok && final(frame)@ == f2,
            None => !ok,
        },
    decreases fuel, 0int, 0int,
{
    match instr {
        Instr::Add(a, b) => {
            match (eval_operand_exec(frame, a), eval_operand_exec(frame, b)) {
                (Some(RuntimeVal::I64(x)), Some(RuntimeVal::I64(y))) => set_reg_exec(
                    frame,
                    id,
                    RuntimeVal::I64(x.wrapping_add(y)),
                ),
                _ => false,
            }
        },
        Instr::Sub(a, b) => {
            match (eval_operand_exec(frame, a), eval_operand_exec(frame, b)) {
                (Some(RuntimeVal::I64(x)), Some(RuntimeVal::I64(y))) => set_reg_exec(
                    frame,
                    id,
                    RuntimeVal::I64(x.wrapping_sub(y)),
                ),
                _ => false,
            }
        },
        Instr::Mul(a, b) => {
            match (eval_operand_exec(frame, a), eval_operand_exec(frame, b)) {
                (Some(RuntimeVal::I64(x)), Some(RuntimeVal::I64(y))) => set_reg_exec(
                    frame,
                    id,
                    RuntimeVal::I64(x.wrapping_mul(y)),
                ),
                _ => false,
            }
        },
        Instr::SDiv(a, b) => {
            match (eval_operand_exec(frame, a), eval_operand_exec(frame, b)) {
                (Some(RuntimeVal::I64(x)), Some(RuntimeVal::I64(y))) => {
                    match x.checked_div(y) {
                        Some(q) => set_reg_exec(frame, id, RuntimeVal::I64(q)),
                        None => false,
                    }
                },
                _ => false,
            }
        },
        Instr::CmpEq(a, b) => {
            match (eval_operand_exec(frame, a), eval_operand_exec(frame, b)) {
                (Some(RuntimeVal::I64(x)), Some(RuntimeVal::I64(y))) => set_reg_exec(
                    frame,
                    id,
                    RuntimeVal::Bool(x == y),
                ),
                (Some(RuntimeVal::Bool(x)), Some(RuntimeVal::Bool(y))) => set_reg_exec(
                    frame,
                    id,
                    RuntimeVal::Bool(x == y),
                ),
                _ => false,
            }
        },
        Instr::Call { callee, ret: _, args, tail: _ } => {
            match eval_operands_exec(frame, args) {
                None => false,
                Some(argvals) => {
                    match m.get_function(callee.as_str()) {
                        None => {
                            proof {
                                crate::ir::lemma_find_function_props(m@.functions, callee@);
                            }
                            false
                        },
                        Some(fidx) => {
                            proof {
                                crate::ir::lemma_find_function_props(m@.functions, callee@);
                            }
                            if m.functions[fidx].external {
                                set_reg_exec(frame, id, RuntimeVal::I64(0))
                            } else if fuel == 0 {
                                false
                            } else {
                                match eval_fn_exec(m, fidx, argvals, fuel - 1) {
                                    None => false,
                                    Some(v) => set_reg_exec(frame, id, v),
                                }
                            }
                        },
                    }
                },
            }
        },
        Instr::Phi { ty: _, incoming } => {
            match pred {
                None => false,
                Some(p) => {
                    let ghost incv = Seq::new(incoming@.len(), |i: int| (incoming@[i].0@, incoming@[i].1));
                    proof {
                        assert(incv =~= instr@->incoming);
                        assert(incv.skip(0) =~= incv);
                    }
                    let mut i: usize = 0;
                    while i < incoming.len()
                        invariant
                            0 <= i <= incoming.len(),
                            *frame == *old(frame),
                            incv == Seq::new(incoming@.len(), |k: int| (incoming@[k].0@, incoming@[k].1)),
                            incv == instr@->incoming,
                            instr@ matches InstrV::Phi { ty: _, incoming: _ },
                            pred == Some(p),
                            phi_pick(incv, p) == phi_pick(incv.skip(i as int), p),
                        decreases incoming.len() - i,
                    {
                        proof {
                            assert(incv.skip(i as int)[0] == incv[i as int]);
                            assert(incv.skip(i as int).drop_first() =~= incv.skip(i as int + 1));
                        }
                        if incoming[i].1 == p {
                            proof {
                                assert(incv[i as int] == (incoming@[i as int].0@, incoming@[i as int].1));
                                assert(phi_pick(incv, p) == Some(incv[i as int].0));
                            }
                            match eval_operand_exec(frame, &incoming[i].0) {
                                None => {
                                    proof {
                                        assert(eval_operand(frame@, incv[i as int].0) is None);
                                        assert(frame@ == old(frame)@);
                                        assert(eval_instr(m@, old(frame)@, id, instr@, pred, fuel as nat) is None);
                                    }
                                    return false;
                                },
                                Some(v) => {
                                    proof {
                                        assert(eval_operand(frame@, incv[i as int].0) == Some(v@));
                                        assert(frame@ == old(frame)@);
                                        assert(eval_instr(m@, old(frame)@, id, instr@, pred, fuel as nat) == set_reg(old(frame)@, id, v@));
                                    }
                                    return set_reg_exec(frame, id, v);
                                },
                            }
                        }
                        i = i + 1;
                    }
                    proof {
                        assert(incv.skip(i as int).len() == 0);
                    }
                    false
                },
            }
        },
        Instr::Alloca(_) => {
            if id < frame.mem.len() {
                set_reg_exec(frame, id, RuntimeVal::SlotPtr(id))
            } else {
                false
            }
        },
        Instr::Store { value, ptr } => {
            match (eval_operand_exec(frame, value), eval_operand_exec(frame, ptr)) {
                (Some(v), Some(RuntimeVal::SlotPtr(s))) => {
                    if s < frame.mem.len() {
                        frame.mem.set(s, Some(v));
                        proof {
                            assert(final(frame)@.mem =~= old(frame)@.mem.update(
                                s as int,
                                Some(v@),
                            ));
                        }
                        true
                    } else {
                        false
                    }
                },
                _ => false,
            }
        },
        Instr::Load { ty: _, ptr } => {
            match eval_operand_exec(frame, ptr) {
                Some(RuntimeVal::SlotPtr(s)) => {
                    if s < frame.mem.len() {
                        match &frame.mem[s] {
                            Some(v) => {
                                let vv = v.clone();
                                set_reg_exec(frame, id, vv)
                            },
                            None => false,
                        }
                    } else {
                        false
                    }
                },
                _ => false,
            }
        },
    }
}

/// Runs a function body from block `b`, arriving from `pred`.
fn eval_block_exec(
    m: &IrModule,
    f: &IrFunction,
    b: usize,
    pred: Option<usize>,
    frame: Frame,
    fuel: u64,
) -> (r: Option<RuntimeVal>)
    ensures
        rt_opt(r) == eval_block(m@, f@, b, pred, frame@, fuel as nat),
    decreases fuel, 2int, 0int,
{
    if b >= f.blocks.len() {
        return None;
    }
    let blk = &f.blocks[b];
    let ghost blkv = f@.blocks[b as int];
    let mut fr = frame;
    let mut i: usize = 0;
    proof {
        assert(blkv.instrs.skip(0) =~= blkv.instrs);
    }
    while i < blk.instrs.len()
        invariant
            0 <= i <= blk.instrs.len(),
            blkv == f@.blocks[b as int],
            b < f.blocks.len(),
            blkv.instrs.len() == blk.instrs@.len(),
            forall|k: int|
                0 <= k < blk.instrs@.len() ==> blkv.instrs[k] == (
                blk.instrs@[k].0,
                blk.instrs@[k].1@,
                ),
            eval_instrs(m@, frame@, blkv.instrs, pred, fuel as nat) == eval_instrs(
                m@,
                fr@,
                blkv.instrs.skip(i as int),
                pred,
                fuel as nat,
            ),
        decreases blk.instrs.len() - i,
    {
        let ghost tail = blkv.instrs.skip(i as int);
        proof {
            assert(tail[0] == blkv.instrs[i as int]);
            assert(tail.drop_first() =~= blkv.instrs.skip(i as int + 1));
        }
        let id = blk.instrs[i].0;
        let ghost frpre = fr@;
        let ok = eval_instr_exec(m, &mut fr, id, &blk.instrs[i].1, pred, fuel);
        if !ok {
            proof {
                assert(eval_instr(m@, frpre, tail[0].0, tail[0].1, pred, fuel as nat) is None);
                assert(eval_instrs(m@, frpre, tail, pred, fuel as nat) is None);
            }
            return None;
        }
        proof {
            assert(eval_instr(m@, frpre, tail[0].0, tail[0].1, pred, fuel as nat) == Some(fr@));
            assert(eval_instrs(m@, frpre, tail, pred, fuel as nat) == eval_instrs(
                m@,
                fr@,
                blkv.instrs.skip(i as int + 1),
                pred,
                fuel as nat,
            ));
        }
        i = i + 1;
    }
    proof {
        assert(blkv.instrs.skip(i as int).len() == 0);
    }
    match &blk.terminator {
        None => None,
        Some(Terminator::Ret(op)) => eval_operand_exec(&fr, op),
        Some(Terminator::Br(t)) => {
            if fuel == 0 {
                None
            } else {
                eval_block_exec(m, f, *t, Some(b), fr, fuel - 1)
            }
        },
        Some(Terminator::CondBr { cond, then_blk, else_blk }) => {
            match eval_operand_exec(&fr, cond) {
                Some(RuntimeVal::Bool(c)) => {
                    if fuel == 0 {
                        None
                    } else {
                        let target = if c {
                            *then_blk
                        } else {
                            *else_blk
                        };
                        eval_block_exec(m, f, target, Some(b), fr, fuel - 1)
                    }
                },
                _ => None,
            }
        },
    }
}

/// Calls the function at `fidx` of the module on the given arguments, with
/// a step budget.
pub fn eval_fn_exec(m: &IrModule, fidx: usize, argvals: Vec<RuntimeVal>, fuel: u64) -> (r: Option<
    RuntimeVal,
>)
    ensures
        rt_opt(r) == eval_fn(m@, fidx as int, vals_view(argvals@), fuel as nat),
    decreases fuel, 3int, 0int,
{
    if fidx >= m.functions.len() {
        return None;
    }
    let f = &m.functions[fidx];
    if f.external || argvals.len() != f.params.len() {
        return None;
    }
    let mut regs: Vec<Option<RuntimeVal>> = Vec::new();
    let mut mem: Vec<Option<RuntimeVal>> = Vec::new();
    let mut k: usize = 0;
    while k < f.next_reg
        invariant
            0 <= k <= f.next_reg,
            regs@.len() == k,
            mem@.len() == k,
            forall|j: int| 0 <= j < k ==> regs@[j] is None,
            forall|j: int| 0 <= j < k ==> mem@[j] is None,
        decreases f.next_reg - k,
    {
        regs.push(None);
        mem.push(None);
        k = k + 1;
    }
    let frame = Frame { args: argvals, regs, mem };
    proof {
        assert(frame@.args =~= vals_view(argvals@));
        assert(frame@.regs =~= init_frame(f@, vals_view(argvals@)).regs);
        assert(frame@.mem =~= init_frame(f@, vals_view(argvals@)).mem);
        assert(frame@ == init_frame(f@, vals_view(argvals@)));
    }
    eval_block_exec(m, f, 0, None, frame, fuel)
}

/// Calls the function with the given name, if the module defines one.
pub fn run_function_exec(m: &IrModule, name: &str, argvals: Vec<RuntimeVal>, fuel: u64) -> (r:
    Option<RuntimeVal>)
    ensures
        rt_opt(r) == run_function(m@, name@, vals_view(argvals@), fuel as nat),
{
    match m.get_function(name) {
        None => None,
        Some(fidx) => eval_fn_exec(m, fidx, argvals, fuel),
    }
}

} // verus!
