//! The dispatch core: from an opcode to its handler, and the loop that runs
//! a process until its reductions are used up.
use vstd::prelude::*;
use crate::fail::{ExceptionClass, ExceptionReason};
use crate::gen_op::{
    arity_of, valid_opcode, RawOpcode, OPCODE_ALLOCATE, OPCODE_ALLOCATE_ZERO, OPCODE_BIF0,
    OPCODE_BIF1, OPCODE_BIF2, OPCODE_CALL, OPCODE_CALL_EXT_ONLY, OPCODE_CALL_ONLY,
    OPCODE_DEALLOCATE, OPCODE_FUNC_INFO, OPCODE_GC_BIF1, OPCODE_GC_BIF2, OPCODE_GC_BIF3,
    OPCODE_GET_LIST, OPCODE_IS_EQ_EXACT, OPCODE_IS_LT, OPCODE_IS_NIL, OPCODE_IS_NONEMPTY_LIST,
    OPCODE_MOVE, OPCODE_PUT_LIST, OPCODE_RETURN, OPCODE_TEST_HEAP,
};
use crate::module::Module;
use crate::opcodes::{
    gives_step, op_allocate, op_bif2, op_call, op_call_ext_only, op_call_only, op_deallocate,
    op_func_info, op_gc_bif2, op_get_list, op_is_eq_exact, op_is_lt, op_is_nil,
    op_is_nonempty_list, op_move, op_put_list, op_return, op_test_heap, op_undefined_bif,
    opcode_allocate, opcode_bif2, opcode_call, opcode_call_ext_only, opcode_call_only,
    opcode_deallocate, opcode_func_info, opcode_gc_bif2, opcode_get_list, opcode_is_eq_exact,
    opcode_is_lt, opcode_is_nil, opcode_is_nonempty_list, opcode_move, opcode_put_list,
    arg, is_target, opcode_return, opcode_test_heap, opcode_undefined_bif, raise, Step,
};
use crate::runtime_ctx::{machine, Context, DispatchResult, Machine, Process};
use crate::term::{Term, TermKind};

verus! {

/// The number of operand words that the handler of an opcode reads; `None`
/// for an opcode without a handler.
pub open spec fn handler_width(op: u8) -> Option<nat> {
    if op == OPCODE_RETURN {
        Some(0)
    } else if op == OPCODE_DEALLOCATE {
        Some(1)
    } else if op == OPCODE_CALL || op == OPCODE_CALL_ONLY || op == OPCODE_CALL_EXT_ONLY || op
        == OPCODE_BIF0 || op == OPCODE_ALLOCATE || op == OPCODE_ALLOCATE_ZERO || op
        == OPCODE_TEST_HEAP || op == OPCODE_IS_NIL || op == OPCODE_IS_NONEMPTY_LIST || op
        == OPCODE_MOVE {
        Some(2)
    } else if op == OPCODE_FUNC_INFO || op == OPCODE_IS_LT || op == OPCODE_IS_EQ_EXACT || op
        == OPCODE_GET_LIST || op == OPCODE_PUT_LIST {
        Some(3)
    } else if op == OPCODE_BIF1 {
        Some(4)
    } else if op == OPCODE_BIF2 || op == OPCODE_GC_BIF1 {
        Some(5)
    } else if op == OPCODE_GC_BIF2 {
        Some(6)
    } else if op == OPCODE_GC_BIF3 {
        Some(7)
    } else {
        None
    }
}

/// Arity consistency: an opcode with a handler names an instruction, and
/// its handler reads as many operand words as the instruction has operands.
pub proof fn lemma_handler_arity(op: u8)
    ensures
        handler_width(op) matches Some(width) ==> valid_opcode(op) && width == arity_of(op),
{
}

/// What the dispatch of an opcode does to a process that runs the module.
/// An opcode without a handler ends the process with an error.
#[verifier::opaque]
pub open spec fn dispatch(module: Module, op: u8, m: Machine) -> Step {
    if op == OPCODE_FUNC_INFO {
        op_func_info(module.code@, m)
    } else if op == OPCODE_CALL {
        op_call(module.code@, m)
    } else if op == OPCODE_CALL_ONLY {
        op_call_only(module.code@, m)
    } else if op == OPCODE_BIF0 || op == OPCODE_BIF1 || op == OPCODE_GC_BIF1 || op
        == OPCODE_GC_BIF3 {
        op_undefined_bif(m)
    } else if op == OPCODE_BIF2 {
        op_bif2(module, m)
    } else if op == OPCODE_ALLOCATE || op == OPCODE_ALLOCATE_ZERO {
        op_allocate(module.code@, m)
    } else if op == OPCODE_TEST_HEAP {
        op_test_heap(module.code@, m)
    } else if op == OPCODE_DEALLOCATE {
        op_deallocate(module.code@, m)
    } else if op == OPCODE_RETURN {
        op_return(module.code@, m)
    } else if op == OPCODE_IS_LT {
        op_is_lt(module.code@, m)
    } else if op == OPCODE_IS_EQ_EXACT {
        op_is_eq_exact(module.code@, m)
    } else if op == OPCODE_IS_NIL {
        op_is_nil(module.code@, m)
    } else if op == OPCODE_IS_NONEMPTY_LIST {
        op_is_nonempty_list(module.code@, m)
    } else if op == OPCODE_MOVE {
        op_move(module.code@, m)
    } else if op == OPCODE_GET_LIST {
        op_get_list(module.code@, m)
    } else if op == OPCODE_PUT_LIST {
        op_put_list(module.code@, m)
    } else if op == OPCODE_CALL_EXT_ONLY {
        op_call_ext_only(module, m)
    } else if op == OPCODE_GC_BIF2 {
        op_gc_bif2(module, m)
    } else {
        raise(m, ExceptionReason::UnknownOpcode)
    }
}

/// An opcode has a handler exactly where the dispatch knows its width.
pub proof fn lemma_dispatch_knows(module: Module, op: u8, m: Machine)
    ensures
        handler_width(op) is None ==> dispatch(module, op, m) == raise(
            m,
            ExceptionReason::UnknownOpcode,
        ),
{
    reveal(dispatch);
}

/// Whether the handler of the opcode never jumps: it goes on behind its
/// operands, or it does not go on.
pub open spec fn goes_straight(op: u8) -> bool {
    op == OPCODE_MOVE || op == OPCODE_ALLOCATE || op == OPCODE_ALLOCATE_ZERO || op
        == OPCODE_DEALLOCATE || op == OPCODE_TEST_HEAP || op == OPCODE_GET_LIST || op
        == OPCODE_PUT_LIST
}

/// Whether the handler of the opcode goes on behind its operands or jumps
/// to its first operand, the fail label.
pub open spec fn may_fail(op: u8) -> bool {
    op == OPCODE_IS_LT || op == OPCODE_IS_EQ_EXACT || op == OPCODE_IS_NIL || op
        == OPCODE_IS_NONEMPTY_LIST || op == OPCODE_BIF2 || op == OPCODE_GC_BIF2
}

/// A handler consumes its operands: an instruction that ends normally and
/// does not jump leaves the instruction pointer behind as many words as the
/// instruction has operands.
pub proof fn lemma_handler_consumes(module: Module, op: u8, m: Machine)
    requires
        dispatch(module, op, m).r == DispatchResult::Normal,
        m.ip + arity_of(op) <= usize::MAX,
    ensures
        goes_straight(op) ==> dispatch(module, op, m).m.ip == m.ip + arity_of(op),
        may_fail(op) ==> dispatch(module, op, m).m.ip == m.ip + arity_of(op) || (is_target(
            arg(module.code@, m, 0),
        ) && dispatch(module, op, m).m.ip == arg(module.code@, m, 0)@->Cp_0),
{
    reveal(dispatch);
}

/// The error of an opcode that has no handler.
pub fn unknown_opcode(op: RawOpcode, ctx: &Context) -> (r: DispatchResult)
    ensures
        r == DispatchResult::Error(ExceptionClass::Error, ExceptionReason::UnknownOpcode),
{
    DispatchResult::Error(ExceptionClass::Error, ExceptionReason::UnknownOpcode)
}

/// Runs the handler of an opcode.  The instruction pointer stands behind
/// the opcode word.
pub fn dispatch_op_inline(
    op: RawOpcode,
    module: &Module,
    ctx: &mut Context,
    curr_p: &mut Process,
) -> (r: DispatchResult)
    ensures
        gives_step(
            dispatch(*module, op.0, machine(*old(ctx), *old(curr_p))),
            r,
            *final(ctx),
            *final(curr_p),
            *old(curr_p),
        ),
{
    reveal(dispatch);
    let code = module.code.as_slice();
    let n: u8 = op.0;
    if n == OPCODE_FUNC_INFO {
        opcode_func_info(code, ctx, curr_p)
    } else if n == OPCODE_CALL {
        opcode_call(code, ctx, curr_p)
    } else if n == OPCODE_CALL_ONLY {
        opcode_call_only(code, ctx, curr_p)
    } else if n == OPCODE_BIF0 || n == OPCODE_BIF1 || n == OPCODE_GC_BIF1 || n == OPCODE_GC_BIF3 {
        opcode_undefined_bif(ctx, curr_p)
    } else if n == OPCODE_BIF2 {
        opcode_bif2(module, ctx, curr_p)
    } else if n == OPCODE_ALLOCATE || n == OPCODE_ALLOCATE_ZERO {
        opcode_allocate(code, ctx, curr_p)
    } else if n == OPCODE_TEST_HEAP {
        opcode_test_heap(code, ctx, curr_p)
    } else if n == OPCODE_DEALLOCATE {
        opcode_deallocate(code, ctx, curr_p)
    } else if n == OPCODE_RETURN {
        opcode_return(code, ctx, curr_p)
    } else if n == OPCODE_IS_LT {
        opcode_is_lt(code, ctx, curr_p)
    } else if n == OPCODE_IS_EQ_EXACT {
        opcode_is_eq_exact(code, ctx, curr_p)
    } else if n == OPCODE_IS_NIL {
        opcode_is_nil(code, ctx, curr_p)
    } else if n == OPCODE_IS_NONEMPTY_LIST {
        opcode_is_nonempty_list(code, ctx, curr_p)
    } else if n == OPCODE_MOVE {
        opcode_move(code, ctx, curr_p)
    } else if n == OPCODE_GET_LIST {
        opcode_get_list(code, ctx, curr_p)
    } else if n == OPCODE_PUT_LIST {
        opcode_put_list(code, ctx, curr_p)
    } else if n == OPCODE_CALL_EXT_ONLY {
        opcode_call_ext_only(module, ctx, curr_p)
    } else if n == OPCODE_GC_BIF2 {
        opcode_gc_bif2(module, ctx, curr_p)
    } else {
        unknown_opcode(op, ctx)
    }
}

/// How a run of a process ends: its state, why the run ended, and the
/// number of instructions that it executed.
pub struct Run {
    pub m: Machine,
    pub r: DispatchResult,
    pub executed: nat,
}

/// The opcode at the instruction pointer; `None` where the pointer is
/// outside of the code or the word there is no opcode.
pub open spec fn opcode_at(code: Seq<u64>, ip: usize) -> Option<u8> {
    if ip < code.len() && (Term { value: code[ip as int] })@ is Opcode && (Term {
        value: code[ip as int],
    })@->Opcode_0 < 256 {
        Some((Term { value: code[ip as int] })@->Opcode_0 as u8)
    } else {
        None
    }
}

/// The run of a process from the state `m` on.
///
/// Without reductions the process yields.  Else the opcode at the
/// instruction pointer is dispatched, with the pointer behind it, and one
/// reduction is charged for it, whatever the opcode.  The run goes on
/// while the dispatch ends normally.  A word that is no opcode ends the
/// process with an error, and is not charged.
pub open spec fn run_from(module: Module, m: Machine) -> Run
    decreases m.reductions,
{
    if m.reductions <= 0 {
        Run { m, r: DispatchResult::Yield, executed: 0 }
    } else {
        match opcode_at(module.code@, m.ip) {
            None => Run {
                m,
                r: DispatchResult::Error(ExceptionClass::Error, ExceptionReason::UnknownOpcode),
                executed: 0,
            },
            Some(op) => {
                let step = dispatch(module, op, Machine { ip: (m.ip + 1) as usize, ..m });
                let after = Machine { reductions: (m.reductions - 1) as i64, ..step.m };
                if step.r == DispatchResult::Normal {
                    Run {
                        m: run_from(module, after).m,
                        r: run_from(module, after).r,
                        executed: run_from(module, after).executed + 1,
                    }
                } else {
                    Run { m: after, r: step.r, executed: 1 }
                }
            },
        }
    }
}

/// Reduction counting: a run executes no more instructions than the process
/// has reductions, and a run that ends because the process yields has
/// executed exactly as many, whatever instructions they were.
pub proof fn lemma_yield_after_reductions(module: Module, m: Machine)
    requires
        m.reductions >= 0,
    ensures
        run_from(module, m).executed <= m.reductions,
        run_from(module, m).r == DispatchResult::Yield ==> run_from(module, m).executed
            == m.reductions && run_from(module, m).m.reductions == 0,
    decreases m.reductions,
{
    if m.reductions > 0 {
        match opcode_at(module.code@, m.ip) {
            None => {},
            Some(op) => {
                let step = dispatch(module, op, Machine { ip: (m.ip + 1) as usize, ..m });
                let after = Machine { reductions: (m.reductions - 1) as i64, ..step.m };
                lemma_dispatch_never_yields(module, op, Machine { ip: (m.ip + 1) as usize, ..m });
                if step.r == DispatchResult::Normal {
                    lemma_yield_after_reductions(module, after);
                }
            },
        }
    }
}

/// No handler yields: a process yields only where its reductions are used
/// up.
pub proof fn lemma_dispatch_never_yields(module: Module, op: u8, m: Machine)
    ensures
        dispatch(module, op, m).r != DispatchResult::Yield,
{
    reveal(dispatch);
}

/// Dispatch determinism: the run of a process is a function of the module
/// and of the state of the process.  Two processes in the same state, in
/// contexts in the same state, run to the same state, end for the same
/// reason, and have executed the same number of instructions.
pub proof fn lemma_dispatch_deterministic(
    module: Module,
    ctx1: Context,
    proc1: Process,
    ctx2: Context,
    proc2: Process,
)
    requires
        machine(ctx1, proc1) == machine(ctx2, proc2),
    ensures
        run_from(module, machine(ctx1, proc1)) == run_from(module, machine(ctx2, proc2)),
{
}

/// What a run returns: why it ended, and the number of instructions that it
/// executed.
#[derive(Clone, Copy, Debug, PartialEq, Eq, Structural)]
pub struct RunResult {
    pub result: DispatchResult,
    pub executed: u64,
}

/// Reads the opcode at the instruction pointer.
fn fetch_opcode(module: &Module, ctx: &Context) -> (r: Option<u8>)
    ensures
        r == opcode_at(module.code@, ctx.ip),
        r is Some ==> ctx.ip < usize::MAX,
{
    if ctx.ip >= module.code.len() {
        return None;
    }
    let t = Term::from_raw(module.code[ctx.ip]);
    if !t.is_opcode() {
        return None;
    }
    let n: u64 = t.get_special_value();
    if n >= 256 {
        return None;
    }
    Some(n as u8)
}

/// Runs the process until it yields, waits, ends or fails.
pub fn run(module: &Module, ctx: &mut Context, curr_p: &mut Process) -> (r: RunResult)
    ensures
        r.result == run_from(*module, machine(*old(ctx), *old(curr_p))).r,
        r.executed == run_from(*module, machine(*old(ctx), *old(curr_p))).executed,
        machine(*final(ctx), *final(curr_p)) == run_from(
            *module,
            machine(*old(ctx), *old(curr_p)),
        ).m,
        final(curr_p).mailbox == old(curr_p).mailbox,
        final(curr_p).status == old(curr_p).status,
{
    let ghost whole = run_from(*module, machine(*ctx, *curr_p));
    let mut executed: u64 = 0;
    loop
        invariant
            executed <= i64::MAX - ctx.reductions || ctx.reductions <= 0,
            whole == run_from(*module, machine(*old(ctx), *old(curr_p))),
            run_from(*module, machine(*ctx, *curr_p)).m == whole.m,
            run_from(*module, machine(*ctx, *curr_p)).r == whole.r,
            run_from(*module, machine(*ctx, *curr_p)).executed + executed == whole.executed,
            curr_p.mailbox == old(curr_p).mailbox,
            curr_p.status == old(curr_p).status,
        decreases ctx.reductions,
    {
        if ctx.reductions <= 0 {
            return RunResult { result: DispatchResult::Yield, executed };
        }
        let op: u8 = match fetch_opcode(module, ctx) {
            Some(op) => op,
            None => {
                return RunResult {
                    result: DispatchResult::Error(
                        ExceptionClass::Error,
                        ExceptionReason::UnknownOpcode,
                    ),
                    executed,
                };
            },
        };
        let left: i64 = ctx.reductions;
        ctx.ip = ctx.ip + 1;
        let result = dispatch_op_inline(RawOpcode(op), module, ctx, curr_p);
        ctx.reductions = left - 1;
        executed = executed + 1;
        if result != DispatchResult::Normal {
            return RunResult { result, executed };
        }
    }
}

} // verus!
