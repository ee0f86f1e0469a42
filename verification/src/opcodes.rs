//! The instructions: what each opcode does to a running process.
//!
//! A handler finds the instruction pointer behind its opcode word.  It reads
//! its operands from there, and either moves the instruction pointer behind
//! them or sets it to the target of a jump.  A handler never fails of
//! itself: what it cannot do it reports as an exception of the process.
use vstd::prelude::*;
use crate::arith::{
    divide, gives_integer, minus, multiply, plus, product_of, quotient, remainder, rest, Product,
};
use crate::boxed::room_for;
use crate::fail::{ExceptionClass, ExceptionReason, RtErr};
use crate::gen_atoms::{ATOM_DIV, ATOM_ERLANG, ATOM_MINUS, ATOM_PLUS, ATOM_REM, ATOM_TIMES};
use crate::gen_op::{
    assert_arity, RawOpcode, OPCODE_ALLOCATE, OPCODE_ALLOCATE_ZERO, OPCODE_BIF0, OPCODE_BIF1,
    OPCODE_BIF2, OPCODE_CALL, OPCODE_CALL_EXT_ONLY, OPCODE_CALL_ONLY, OPCODE_DEALLOCATE,
    OPCODE_FUNC_INFO, OPCODE_GC_BIF1, OPCODE_GC_BIF2, OPCODE_GC_BIF3, OPCODE_GET_LIST,
    OPCODE_IS_EQ_EXACT, OPCODE_IS_LT, OPCODE_IS_NIL, OPCODE_IS_NONEMPTY_LIST, OPCODE_MOVE,
    OPCODE_PUT_LIST, OPCODE_RETURN, OPCODE_TEST_HEAP,
};
use crate::heap::{fresh_block, Heap};
use crate::module::{fun_key, Module, ARITY_LIMIT};
use crate::number::integer_image;
use crate::runtime_ctx::{
    badarg, load_term, loaded, machine, store_term, stored, Context, DispatchResult, Machine,
    Process, STACK_LIMIT,
};
use crate::term::{
    small_fits_spec, word_of_kind, Term, TermKind, OFFSET_LIMIT, SPECIAL_LIMIT, SPECIAL_NIL,
};
use crate::tuple::{tuple_arity, tuple_at, Tuple};

verus! {

/// The state after an instruction, and how its dispatch ended.
pub struct Step {
    pub m: Machine,
    pub r: DispatchResult,
}

/// The instruction raises an exception and leaves the state as it is.
pub open spec fn raise(m: Machine, reason: ExceptionReason) -> Step {
    Step { m, r: DispatchResult::Error(ExceptionClass::Error, reason) }
}

/// The state with the instruction pointer behind `width` operands.
pub open spec fn behind(m: Machine, width: int) -> Machine {
    Machine { ip: (m.ip + width) as usize, ..m }
}

/// The instruction goes on behind its `width` operands.
pub open spec fn proceed(m: Machine, width: int) -> Step {
    Step { m: behind(m, width), r: DispatchResult::Normal }
}

/// Whether the term is a code pointer that a `usize` holds.
pub open spec fn is_target(t: Term) -> bool {
    t@ is Cp && t@->Cp_0 <= usize::MAX
}

/// The instruction jumps to `target`, which has to be a code pointer.
pub open spec fn jump(m: Machine, target: Term) -> Step {
    if is_target(target) {
        Step { m: Machine { ip: target@->Cp_0 as usize, ..m }, r: DispatchResult::Normal }
    } else {
        raise(m, ExceptionReason::Badarg)
    }
}

/// The instruction goes on where the test passes, and jumps to the label
/// where it fails.
pub open spec fn branch(m: Machine, width: int, pass: bool, label: Term) -> Step {
    if pass {
        proceed(m, width)
    } else {
        jump(m, label)
    }
}

/// Whether the code holds `width` operands at the instruction pointer.
pub open spec fn has_operands(code: Seq<u64>, m: Machine, width: int) -> bool {
    m.ip + width <= code.len()
}

/// Operand `i` of the instruction.
pub open spec fn arg(code: Seq<u64>, m: Machine, i: int) -> Term {
    Term { value: code[m.ip + i] }
}

/// The nil term.
pub open spec fn nil() -> Term {
    Term { value: SPECIAL_NIL }
}

/// Whether `r` and the process after the call are what `step` says.
pub open spec fn gives_step(
    step: Step,
    r: DispatchResult,
    ctx: Context,
    proc: Process,
    before: Process,
) -> bool {
    &&& r == step.r
    &&& machine(ctx, proc) == step.m
    &&& proc.mailbox == before.mailbox
    &&& proc.status == before.status
}

/// `move Src Dst`: writes the value of `Src` to the register `Dst`.
pub open spec fn op_move(code: Seq<u64>, m: Machine) -> Step {
    if !has_operands(code, m, 2) || loaded(m, arg(code, m, 0)) is None {
        raise(m, ExceptionReason::Badarg)
    } else {
        match stored(behind(m, 2), arg(code, m, 1), loaded(m, arg(code, m, 0))->Some_0) {
            Some(after) => Step { m: after, r: DispatchResult::Normal },
            None => raise(m, ExceptionReason::Badarg),
        }
    }
}

/// `func_info M F A`: no clause of the function matched.
pub open spec fn op_func_info(code: Seq<u64>, m: Machine) -> Step {
    raise(m, ExceptionReason::FunctionClause)
}

/// `call Arity Label`: remembers the place behind the call in the
/// continuation pointer, and jumps to the label.
pub open spec fn op_call(code: Seq<u64>, m: Machine) -> Step {
    if !has_operands(code, m, 2) || !is_target(arg(code, m, 1)) || m.ip + 2 >= SPECIAL_LIMIT {
        raise(m, ExceptionReason::Badarg)
    } else {
        Step {
            m: Machine {
                ip: arg(code, m, 1)@->Cp_0 as usize,
                cp: Term { value: word_of_kind(TermKind::Cp((m.ip + 2) as nat)) },
                ..m
            },
            r: DispatchResult::Normal,
        }
    }
}

/// `call_only Arity Label`: jumps to the label.
pub open spec fn op_call_only(code: Seq<u64>, m: Machine) -> Step {
    if !has_operands(code, m, 2) {
        raise(m, ExceptionReason::Badarg)
    } else {
        jump(m, arg(code, m, 1))
    }
}

/// `return`: goes on at the continuation pointer; at the outermost call,
/// where the continuation pointer is nil, the process has ended.
pub open spec fn op_return(code: Seq<u64>, m: Machine) -> Step {
    if m.cp@ is Nil {
        Step { m, r: DispatchResult::Finished }
    } else if is_target(m.cp) {
        Step { m: Machine { ip: m.cp@->Cp_0 as usize, cp: nil(), ..m }, r: DispatchResult::Normal }
    } else {
        raise(m, ExceptionReason::Badarg)
    }
}

/// The number that operand `i` holds: a small integer that is not
/// negative.
pub open spec fn count_arg(code: Seq<u64>, m: Machine, i: int) -> Option<nat> {
    count_of(arg(code, m, i))
}

/// The number that a term holds: a small integer that is not negative.
pub open spec fn count_of(t: Term) -> Option<nat> {
    if t@ is Small && t@->Small_0 >= 0 {
        Some(t@->Small_0 as nat)
    } else {
        None
    }
}

/// `allocate Need Live` and `allocate_zero Need Live`: pushes the
/// continuation pointer and `Need` Y registers, all nil, on the stack.
pub open spec fn op_allocate(code: Seq<u64>, m: Machine) -> Step {
    if !has_operands(code, m, 2) || count_arg(code, m, 0) is None {
        raise(m, ExceptionReason::Badarg)
    } else if m.stack.len() + count_arg(code, m, 0)->Some_0 + 1 > STACK_LIMIT {
        raise(m, ExceptionReason::SystemLimit)
    } else {
        Step {
            m: Machine {
                ip: (m.ip + 2) as usize,
                cp: nil(),
                stack: m.stack.push(m.cp) + Seq::new(count_arg(code, m, 0)->Some_0, |i: int| nil()),
                ..m
            },
            r: DispatchResult::Normal,
        }
    }
}

/// `deallocate N`: drops `N` Y registers and takes the continuation
/// pointer back from the stack.
pub open spec fn op_deallocate(code: Seq<u64>, m: Machine) -> Step {
    if !has_operands(code, m, 1) || count_arg(code, m, 0) is None || m.stack.len() < count_arg(
        code,
        m,
        0,
    )->Some_0 + 1 {
        raise(m, ExceptionReason::Badarg)
    } else {
        Step {
            m: Machine {
                ip: (m.ip + 1) as usize,
                cp: m.stack[m.stack.len() - count_arg(code, m, 0)->Some_0 - 1],
                stack: m.stack.subrange(0, m.stack.len() - count_arg(code, m, 0)->Some_0 - 1),
                ..m
            },
            r: DispatchResult::Normal,
        }
    }
}

/// `test_heap Need Live`: makes sure that the heap has room for `Need`
/// words.  This core collects no garbage: where the room is not there, the
/// process raises `system_limit`.
pub open spec fn op_test_heap(code: Seq<u64>, m: Machine) -> Step {
    if !has_operands(code, m, 2) || count_arg(code, m, 0) is None {
        raise(m, ExceptionReason::Badarg)
    } else if m.heap.len() + count_arg(code, m, 0)->Some_0 > m.heap_limit {
        raise(m, ExceptionReason::SystemLimit)
    } else {
        proceed(m, 2)
    }
}

/// `is_nil Fail Arg`: goes on where `Arg` is nil, else jumps to `Fail`.
pub open spec fn op_is_nil(code: Seq<u64>, m: Machine) -> Step {
    if !has_operands(code, m, 2) || loaded(m, arg(code, m, 1)) is None {
        raise(m, ExceptionReason::Badarg)
    } else {
        branch(m, 2, loaded(m, arg(code, m, 1))->Some_0@ is Nil, arg(code, m, 0))
    }
}

/// `is_nonempty_list Fail Arg`: goes on where `Arg` is a list that is not
/// empty, else jumps to `Fail`.
pub open spec fn op_is_nonempty_list(code: Seq<u64>, m: Machine) -> Step {
    if !has_operands(code, m, 2) || loaded(m, arg(code, m, 1)) is None {
        raise(m, ExceptionReason::Badarg)
    } else {
        branch(m, 2, loaded(m, arg(code, m, 1))->Some_0@ is Cons, arg(code, m, 0))
    }
}

/// `is_lt Fail A B`: goes on where `A` is less than `B`, else jumps to
/// `Fail`.  Both have to be small integers.
pub open spec fn op_is_lt(code: Seq<u64>, m: Machine) -> Step {
    if !has_operands(code, m, 3) || loaded(m, arg(code, m, 1)) is None || loaded(
        m,
        arg(code, m, 2),
    ) is None {
        raise(m, ExceptionReason::Badarg)
    } else if !(loaded(m, arg(code, m, 1))->Some_0@ is Small && loaded(
        m,
        arg(code, m, 2),
    )->Some_0@ is Small) {
        raise(m, ExceptionReason::Badarg)
    } else {
        branch(
            m,
            3,
            loaded(m, arg(code, m, 1))->Some_0@->Small_0 < loaded(
                m,
                arg(code, m, 2),
            )->Some_0@->Small_0,
            arg(code, m, 0),
        )
    }
}

/// Whether the term points into a heap.
pub open spec fn is_pointer(t: Term) -> bool {
    t@ is Boxed || t@ is Cons
}

/// `is_eq_exact Fail A B`: goes on where `A` and `B` are the same term,
/// else jumps to `Fail`.  Two terms are the same where they are the same
/// word.  Of two pointers that differ this core does not say whether they
/// point to equal values.
pub open spec fn op_is_eq_exact(code: Seq<u64>, m: Machine) -> Step {
    if !has_operands(code, m, 3) || loaded(m, arg(code, m, 1)) is None || loaded(
        m,
        arg(code, m, 2),
    ) is None {
        raise(m, ExceptionReason::Badarg)
    } else if loaded(m, arg(code, m, 1))->Some_0 == loaded(m, arg(code, m, 2))->Some_0 {
        proceed(m, 3)
    } else if is_pointer(loaded(m, arg(code, m, 1))->Some_0) && is_pointer(
        loaded(m, arg(code, m, 2))->Some_0,
    ) {
        raise(m, ExceptionReason::Badarg)
    } else {
        jump(m, arg(code, m, 0))
    }
}

/// `get_list Src Hd Tl`: writes head and tail of the list cell `Src` to the
/// registers `Hd` and `Tl`.
pub open spec fn op_get_list(code: Seq<u64>, m: Machine) -> Step {
    if !has_operands(code, m, 3) || loaded(m, arg(code, m, 0)) is None {
        raise(m, ExceptionReason::Badarg)
    } else if !(loaded(m, arg(code, m, 0))->Some_0@ is Cons && loaded(
        m,
        arg(code, m, 0),
    )->Some_0@->Cons_0 + 1 < m.heap.len()) {
        raise(m, ExceptionReason::Badarg)
    } else {
        match stored(
            behind(m, 3),
            arg(code, m, 1),
            Term { value: m.heap[loaded(m, arg(code, m, 0))->Some_0@->Cons_0 as int] },
        ) {
            None => raise(m, ExceptionReason::Badarg),
            Some(with_head) => match stored(
                with_head,
                arg(code, m, 2),
                Term { value: m.heap[(loaded(m, arg(code, m, 0))->Some_0@->Cons_0 + 1) as int] },
            ) {
                None => raise(with_head_undone(m, with_head), ExceptionReason::Badarg),
                Some(after) => Step { m: after, r: DispatchResult::Normal },
            },
        }
    }
}

/// The state where the head was written and the tail could not be: the
/// head stays written, and the instruction pointer is where it was.
pub open spec fn with_head_undone(m: Machine, with_head: Machine) -> Machine {
    Machine { ip: m.ip, ..with_head }
}

/// `put_list Hd Tl Dst`: writes a list cell to the heap, and the pointer
/// to it to the register `Dst`.
pub open spec fn op_put_list(code: Seq<u64>, m: Machine) -> Step {
    if !has_operands(code, m, 3) || loaded(m, arg(code, m, 0)) is None || loaded(
        m,
        arg(code, m, 1),
    ) is None {
        raise(m, ExceptionReason::Badarg)
    } else if !(arg(code, m, 2)@ is RegX || arg(code, m, 2)@ is RegY) || stored(
        m,
        arg(code, m, 2),
        nil(),
    ) is None {
        raise(m, ExceptionReason::Badarg)
    } else if !room_for(m.heap.len(), m.heap_limit, 2) {
        raise(m, ExceptionReason::SystemLimit)
    } else {
        Step {
            m: stored(
                Machine {
                    ip: (m.ip + 3) as usize,
                    heap: m.heap + seq![
                        loaded(m, arg(code, m, 0))->Some_0.value,
                        loaded(m, arg(code, m, 1))->Some_0.value,
                    ],
                    ..m
                },
                arg(code, m, 2),
                Term { value: word_of_kind(TermKind::Cons(m.heap.len())) },
            )->Some_0,
            r: DispatchResult::Normal,
        }
    }
}

/// Reads operand `i`.
fn fetch(code: &[u64], ctx: &Context, i: usize) -> (t: Term)
    requires
        ctx.ip + i < code@.len(),
    ensures
        t.value == code@[ctx.ip + i],
{
    let len: usize = code.len();
    Term::from_raw(code[ctx.ip + i])
}

/// Whether the code holds `width` operands at the instruction pointer.
fn operands_there(code: &[u64], ctx: &Context, width: usize) -> (b: bool)
    ensures
        b == (ctx.ip + width <= code@.len()),
        b ==> ctx.ip + width <= usize::MAX,
{
    ctx.ip <= code.len() && width <= code.len() - ctx.ip
}

/// Sets the instruction pointer to the target, which has to be a code
/// pointer.
fn jump_to(ctx: &mut Context, target: Term) -> (r: DispatchResult)
    ensures
        is_target(target) ==> r == DispatchResult::Normal && final(ctx).ip == target@->Cp_0,
        !is_target(target) ==> r == badarg() && final(ctx).ip == old(ctx).ip,
        final(ctx).cp == old(ctx).cp,
        final(ctx).regs == old(ctx).regs,
        final(ctx).reductions == old(ctx).reductions,
{
    if target.is_cp() {
        let offset: u64 = target.get_cp_offset();
        if offset <= usize::MAX as u64 {
            ctx.ip = offset as usize;
            return DispatchResult::Normal;
        }
    }
    DispatchResult::Error(ExceptionClass::Error, ExceptionReason::Badarg)
}

/// The number that operand `i` holds.
fn fetch_count(code: &[u64], ctx: &Context, i: usize) -> (r: Option<u64>)
    requires
        ctx.ip + i < code@.len(),
    ensures
        match r {
            Some(n) => count_of(Term { value: code@[ctx.ip + i] }) == Some(n as nat),
            None => count_of(Term { value: code@[ctx.ip + i] }) is None,
        },
{
    let t = fetch(code, ctx, i);
    if t.is_small() && t.get_small_signed() >= 0 {
        Some(t.get_small_unsigned())
    } else {
        None
    }
}

pub fn opcode_move(code: &[u64], ctx: &mut Context, curr_p: &mut Process) -> (r: DispatchResult)
    ensures
        gives_step(
            op_move(code@, machine(*old(ctx), *old(curr_p))),
            r,
            *final(ctx),
            *final(curr_p),
            *old(curr_p),
        ),
{
    assert_arity(RawOpcode(OPCODE_MOVE), 2);
    if !operands_there(code, ctx, 2) {
        return badarg_result();
    }
    let src = fetch(code, ctx, 0);
    let dst = fetch(code, ctx, 1);
    let v = match load_term(ctx, curr_p, src) {
        Some(v) => v,
        None => {
            return badarg_result();
        },
    };
    let at: usize = ctx.ip;
    ctx.ip = at + 2;
    if store_term(ctx, curr_p, dst, v) {
        DispatchResult::Normal
    } else {
        ctx.ip = at;
        badarg_result()
    }
}

/// The `badarg` error.
fn badarg_result() -> (r: DispatchResult)
    ensures
        r == badarg(),
{
    DispatchResult::Error(ExceptionClass::Error, ExceptionReason::Badarg)
}

pub fn opcode_func_info(code: &[u64], ctx: &mut Context, curr_p: &mut Process) -> (r:
    DispatchResult)
    ensures
        gives_step(
            op_func_info(code@, machine(*old(ctx), *old(curr_p))),
            r,
            *final(ctx),
            *final(curr_p),
            *old(curr_p),
        ),
{
    assert_arity(RawOpcode(OPCODE_FUNC_INFO), 3);
    DispatchResult::Error(ExceptionClass::Error, ExceptionReason::FunctionClause)
}

pub fn opcode_call(code: &[u64], ctx: &mut Context, curr_p: &mut Process) -> (r: DispatchResult)
    ensures
        gives_step(
            op_call(code@, machine(*old(ctx), *old(curr_p))),
            r,
            *final(ctx),
            *final(curr_p),
            *old(curr_p),
        ),
{
    assert_arity(RawOpcode(OPCODE_CALL), 2);
    if !operands_there(code, ctx, 2) {
        return badarg_result();
    }
    let label = fetch(code, ctx, 1);
    if ctx.ip as u64 + 2 >= SPECIAL_LIMIT {
        return badarg_result();
    }
    let back = Term::make_cp(ctx.ip as u64 + 2);
    let r = jump_to(ctx, label);
    if r == DispatchResult::Normal {
        ctx.cp = back;
    }
    r
}

pub fn opcode_call_only(code: &[u64], ctx: &mut Context, curr_p: &mut Process) -> (r:
    DispatchResult)
    ensures
        gives_step(
            op_call_only(code@, machine(*old(ctx), *old(curr_p))),
            r,
            *final(ctx),
            *final(curr_p),
            *old(curr_p),
        ),
{
    assert_arity(RawOpcode(OPCODE_CALL_ONLY), 2);
    if !operands_there(code, ctx, 2) {
        return badarg_result();
    }
    let label = fetch(code, ctx, 1);
    jump_to(ctx, label)
}

pub fn opcode_return(code: &[u64], ctx: &mut Context, curr_p: &mut Process) -> (r: DispatchResult)
    ensures
        gives_step(
            op_return(code@, machine(*old(ctx), *old(curr_p))),
            r,
            *final(ctx),
            *final(curr_p),
            *old(curr_p),
        ),
{
    assert_arity(RawOpcode(OPCODE_RETURN), 0);
    if ctx.cp.is_nil() {
        return DispatchResult::Finished;
    }
    let target = ctx.cp;
    let r = jump_to(ctx, target);
    if r == DispatchResult::Normal {
        ctx.cp = Term::nil();
    }
    r
}

/// `allocate` and `allocate_zero`.
pub fn opcode_allocate(code: &[u64], ctx: &mut Context, curr_p: &mut Process) -> (r:
    DispatchResult)
    ensures
        gives_step(
            op_allocate(code@, machine(*old(ctx), *old(curr_p))),
            r,
            *final(ctx),
            *final(curr_p),
            *old(curr_p),
        ),
{
    assert_arity(RawOpcode(OPCODE_ALLOCATE), 2);
    assert_arity(RawOpcode(OPCODE_ALLOCATE_ZERO), 2);
    if !operands_there(code, ctx, 2) {
        return badarg_result();
    }
    let need: u64 = match fetch_count(code, ctx, 0) {
        Some(n) => n,
        None => {
            return badarg_result();
        },
    };
    let depth: usize = curr_p.stack.len();
    if depth >= STACK_LIMIT || need >= (STACK_LIMIT - depth) as u64 {
        return DispatchResult::Error(ExceptionClass::Error, ExceptionReason::SystemLimit);
    }
    curr_p.stack.push(ctx.cp);
    let ghost base = curr_p.stack@;
    let mut i: u64 = 0;
    while i < need
        invariant
            i <= need,
            curr_p.stack@ == base + Seq::new(i as nat, |k: int| nil()),
            curr_p.heap == old(curr_p).heap,
            curr_p.mailbox == old(curr_p).mailbox,
            curr_p.status == old(curr_p).status,
        decreases need - i,
    {
        curr_p.stack.push(Term::nil());
        i += 1;
        assert(curr_p.stack@ =~= base + Seq::new(i as nat, |k: int| nil()));
    }
    ctx.cp = Term::nil();
    ctx.ip = ctx.ip + 2;
    DispatchResult::Normal
}

pub fn opcode_deallocate(code: &[u64], ctx: &mut Context, curr_p: &mut Process) -> (r:
    DispatchResult)
    ensures
        gives_step(
            op_deallocate(code@, machine(*old(ctx), *old(curr_p))),
            r,
            *final(ctx),
            *final(curr_p),
            *old(curr_p),
        ),
{
    assert_arity(RawOpcode(OPCODE_DEALLOCATE), 1);
    if !operands_there(code, ctx, 1) {
        return badarg_result();
    }
    let n: u64 = match fetch_count(code, ctx, 0) {
        Some(n) => n,
        None => {
            return badarg_result();
        },
    };
    let depth: usize = curr_p.stack.len();
    if n >= depth as u64 {
        return badarg_result();
    }
    let keep: usize = depth - n as usize - 1;
    ctx.cp = curr_p.stack[keep];
    curr_p.stack.truncate(keep);
    ctx.ip = ctx.ip + 1;
    DispatchResult::Normal
}

pub fn opcode_test_heap(code: &[u64], ctx: &mut Context, curr_p: &mut Process) -> (r:
    DispatchResult)
    ensures
        gives_step(
            op_test_heap(code@, machine(*old(ctx), *old(curr_p))),
            r,
            *final(ctx),
            *final(curr_p),
            *old(curr_p),
        ),
{
    assert_arity(RawOpcode(OPCODE_TEST_HEAP), 2);
    if !operands_there(code, ctx, 2) {
        return badarg_result();
    }
    let need: u64 = match fetch_count(code, ctx, 0) {
        Some(n) => n,
        None => {
            return badarg_result();
        },
    };
    if need > curr_p.heap.remaining() as u64 {
        return DispatchResult::Error(ExceptionClass::Error, ExceptionReason::SystemLimit);
    }
    ctx.ip = ctx.ip + 2;
    DispatchResult::Normal
}

/// Goes on behind `width` operands where the test passed, and jumps to the
/// label where it failed.
fn branch_to(ctx: &mut Context, width: usize, pass: bool, label: Term) -> (r: DispatchResult)
    requires
        old(ctx).ip + width <= usize::MAX,
    ensures
        pass ==> r == DispatchResult::Normal && final(ctx).ip == old(ctx).ip + width,
        !pass && is_target(label) ==> r == DispatchResult::Normal && final(ctx).ip
            == label@->Cp_0,
        !pass && !is_target(label) ==> r == badarg() && final(ctx).ip == old(ctx).ip,
        final(ctx).cp == old(ctx).cp,
        final(ctx).regs == old(ctx).regs,
        final(ctx).reductions == old(ctx).reductions,
{
    if pass {
        ctx.ip = ctx.ip + width;
        DispatchResult::Normal
    } else {
        jump_to(ctx, label)
    }
}

pub fn opcode_is_nil(code: &[u64], ctx: &mut Context, curr_p: &mut Process) -> (r: DispatchResult)
    ensures
        gives_step(
            op_is_nil(code@, machine(*old(ctx), *old(curr_p))),
            r,
            *final(ctx),
            *final(curr_p),
            *old(curr_p),
        ),
{
    assert_arity(RawOpcode(OPCODE_IS_NIL), 2);
    if !operands_there(code, ctx, 2) {
        return badarg_result();
    }
    let label = fetch(code, ctx, 0);
    match load_term(ctx, curr_p, fetch(code, ctx, 1)) {
        Some(v) => branch_to(ctx, 2, v.is_nil(), label),
        None => badarg_result(),
    }
}

pub fn opcode_is_nonempty_list(code: &[u64], ctx: &mut Context, curr_p: &mut Process) -> (r:
    DispatchResult)
    ensures
        gives_step(
            op_is_nonempty_list(code@, machine(*old(ctx), *old(curr_p))),
            r,
            *final(ctx),
            *final(curr_p),
            *old(curr_p),
        ),
{
    assert_arity(RawOpcode(OPCODE_IS_NONEMPTY_LIST), 2);
    if !operands_there(code, ctx, 2) {
        return badarg_result();
    }
    let label = fetch(code, ctx, 0);
    match load_term(ctx, curr_p, fetch(code, ctx, 1)) {
        Some(v) => branch_to(ctx, 2, v.is_cons(), label),
        None => badarg_result(),
    }
}

pub fn opcode_is_lt(code: &[u64], ctx: &mut Context, curr_p: &mut Process) -> (r: DispatchResult)
    ensures
        gives_step(
            op_is_lt(code@, machine(*old(ctx), *old(curr_p))),
            r,
            *final(ctx),
            *final(curr_p),
            *old(curr_p),
        ),
{
    assert_arity(RawOpcode(OPCODE_IS_LT), 3);
    if !operands_there(code, ctx, 3) {
        return badarg_result();
    }
    let label = fetch(code, ctx, 0);
    let a = match load_term(ctx, curr_p, fetch(code, ctx, 1)) {
        Some(v) => v,
        None => {
            return badarg_result();
        },
    };
    let b = match load_term(ctx, curr_p, fetch(code, ctx, 2)) {
        Some(v) => v,
        None => {
            return badarg_result();
        },
    };
    if !(a.is_small() && b.is_small()) {
        return badarg_result();
    }
    branch_to(ctx, 3, a.get_small_signed() < b.get_small_signed(), label)
}

pub fn opcode_is_eq_exact(code: &[u64], ctx: &mut Context, curr_p: &mut Process) -> (r:
    DispatchResult)
    ensures
        gives_step(
            op_is_eq_exact(code@, machine(*old(ctx), *old(curr_p))),
            r,
            *final(ctx),
            *final(curr_p),
            *old(curr_p),
        ),
{
    assert_arity(RawOpcode(OPCODE_IS_EQ_EXACT), 3);
    if !operands_there(code, ctx, 3) {
        return badarg_result();
    }
    let label = fetch(code, ctx, 0);
    let a = match load_term(ctx, curr_p, fetch(code, ctx, 1)) {
        Some(v) => v,
        None => {
            return badarg_result();
        },
    };
    let b = match load_term(ctx, curr_p, fetch(code, ctx, 2)) {
        Some(v) => v,
        None => {
            return badarg_result();
        },
    };
    if a.raw() == b.raw() {
        ctx.ip = ctx.ip + 3;
        return DispatchResult::Normal;
    }
    if (a.is_boxed() || a.is_cons()) && (b.is_boxed() || b.is_cons()) {
        return badarg_result();
    }
    jump_to(ctx, label)
}

pub fn opcode_get_list(code: &[u64], ctx: &mut Context, curr_p: &mut Process) -> (r:
    DispatchResult)
    ensures
        gives_step(
            op_get_list(code@, machine(*old(ctx), *old(curr_p))),
            r,
            *final(ctx),
            *final(curr_p),
            *old(curr_p),
        ),
{
    assert_arity(RawOpcode(OPCODE_GET_LIST), 3);
    if !operands_there(code, ctx, 3) {
        return badarg_result();
    }
    let src = match load_term(ctx, curr_p, fetch(code, ctx, 0)) {
        Some(v) => v,
        None => {
            return badarg_result();
        },
    };
    if !src.is_cons() {
        return badarg_result();
    }
    let p: u64 = src.get_cons_offset();
    let used: usize = curr_p.heap.allocated();
    if used < 2 || p > (used - 2) as u64 {
        return badarg_result();
    }
    let head = Term::from_raw(curr_p.heap.get(p as usize));
    let tail = Term::from_raw(curr_p.heap.get(p as usize + 1));
    let hd = fetch(code, ctx, 1);
    let tl = fetch(code, ctx, 2);
    let at: usize = ctx.ip;
    ctx.ip = at + 3;
    if !store_term(ctx, curr_p, hd, head) {
        ctx.ip = at;
        return badarg_result();
    }
    if !store_term(ctx, curr_p, tl, tail) {
        ctx.ip = at;
        return badarg_result();
    }
    DispatchResult::Normal
}

/// Writes a list cell at the end of the heap.  Returns its offset, or
/// `None`, with the heap as it was, where the cell does not fit.
fn alloc_cell(hp: &mut Heap, head: Term, tail: Term) -> (r: Option<usize>)
    ensures
        final(hp).limit() == old(hp).limit(),
        room_for(old(hp)@.len(), old(hp).limit(), 2) ==> {
            &&& r matches Some(p)
            &&& p == old(hp)@.len()
            &&& old(hp)@.len() + 2 < OFFSET_LIMIT
            &&& final(hp)@ == old(hp)@ + seq![head.value, tail.value]
        },
        !room_for(old(hp)@.len(), old(hp).limit(), 2) ==> r.is_none() && final(hp)@ == old(hp)@,
{
    let used: usize = hp.allocated();
    if hp.remaining() < 2 || used as u64 >= crate::term::HEADER_SIZE_LIMIT - 2 {
        return None;
    }
    proof {
        hp.lemma_len_bound();
    }
    let ghost before = hp@;
    let p: usize = match hp.alloc_words(2, false) {
        Ok(p) => p,
        Err(e) => {
            return None;
        },
    };
    proof {
        hp.lemma_len_bound();
    }
    hp.set(p, head.raw());
    hp.set(p + 1, tail.raw());
    proof {
        assert(fresh_block(2, false).len() == 2);
        assert(hp@ =~= before + seq![head.value, tail.value]);
    }
    Some(p)
}

pub fn opcode_put_list(code: &[u64], ctx: &mut Context, curr_p: &mut Process) -> (r:
    DispatchResult)
    ensures
        gives_step(
            op_put_list(code@, machine(*old(ctx), *old(curr_p))),
            r,
            *final(ctx),
            *final(curr_p),
            *old(curr_p),
        ),
{
    assert_arity(RawOpcode(OPCODE_PUT_LIST), 3);
    if !operands_there(code, ctx, 3) {
        return badarg_result();
    }
    let head = match load_term(ctx, curr_p, fetch(code, ctx, 0)) {
        Some(v) => v,
        None => {
            return badarg_result();
        },
    };
    let tail = match load_term(ctx, curr_p, fetch(code, ctx, 1)) {
        Some(v) => v,
        None => {
            return badarg_result();
        },
    };
    let dst = fetch(code, ctx, 2);
    let reachable: bool = if dst.is_regx() {
        dst.get_special_value() < ctx.regs.len() as u64
    } else if dst.is_regy() {
        dst.get_special_value() < curr_p.stack.len() as u64
    } else {
        false
    };
    if !reachable {
        return badarg_result();
    }
    let p: usize = match alloc_cell(&mut curr_p.heap, head, tail) {
        Some(p) => p,
        None => {
            return DispatchResult::Error(ExceptionClass::Error, ExceptionReason::SystemLimit);
        },
    };
    ctx.ip = ctx.ip + 3;
    let cell = Term::make_cons(p as u64);
    proof {
        let m = machine(*old(ctx), *old(curr_p));
        assert(cell == Term { value: word_of_kind(TermKind::Cons(m.heap.len())) });
        assert(stored(m, dst, nil()) is Some);
        assert(stored(machine(*ctx, *curr_p), dst, cell) is Some);
    }
    let done = store_term(ctx, curr_p, dst, cell);
    DispatchResult::Normal
}

/// The arithmetic that the runtime itself does.
#[derive(Clone, Copy, Debug, PartialEq, Eq, Structural)]
pub enum ArithOp {
    Plus,
    Minus,
    Times,
    Div,
    Rem,
}

/// Module, function and arity of an import.
pub struct Mfa {
    pub m: Term,
    pub f: Term,
    pub a: Term,
}

/// Import `index` of the module: the tuple `{M, F, Arity}` on its literal
/// heap.
pub open spec fn import_at(module: Module, index: nat) -> Option<Mfa> {
    if index < module.imports@.len() && module.imports@[index as int]@ is Boxed && tuple_at(
        module.lit_heap@,
        module.imports@[index as int]@->Boxed_0 as int,
    ) && tuple_arity(module.lit_heap@, module.imports@[index as int]@->Boxed_0 as int) == 3 {
        Some(
            Mfa {
                m: Term { value: module.lit_heap@[(module.imports@[index as int]@->Boxed_0 + 2) as int] },
                f: Term { value: module.lit_heap@[(module.imports@[index as int]@->Boxed_0 + 3) as int] },
                a: Term { value: module.lit_heap@[(module.imports@[index as int]@->Boxed_0 + 4) as int] },
            },
        )
    } else {
        None
    }
}

/// The arithmetic that an import stands for: `erlang:'+'/2` and its like.
pub open spec fn arith_bif(mfa: Mfa) -> Option<ArithOp> {
    if mfa.m@ == TermKind::Atom(ATOM_ERLANG as nat) && mfa.a@ == TermKind::Small(2) && mfa.f@
        is Atom {
        if mfa.f@->Atom_0 == ATOM_PLUS {
            Some(ArithOp::Plus)
        } else if mfa.f@->Atom_0 == ATOM_MINUS {
            Some(ArithOp::Minus)
        } else if mfa.f@->Atom_0 == ATOM_TIMES {
            Some(ArithOp::Times)
        } else if mfa.f@->Atom_0 == ATOM_DIV {
            Some(ArithOp::Div)
        } else if mfa.f@->Atom_0 == ATOM_REM {
            Some(ArithOp::Rem)
        } else {
            None
        }
    } else {
        None
    }
}

/// The result of the arithmetic on two terms.  A product is that of small
/// integers and of bignums; the other results are those of small integers.
/// `None` where an operand is no such integer, and for a division by zero.
pub open spec fn arith_value(op: ArithOp, heap: Seq<u64>, x: Term, y: Term) -> Option<Product> {
    if op == ArithOp::Times {
        product_of(heap, x, y)
    } else if !(x@ is Small && y@ is Small) {
        None
    } else {
        match op {
            ArithOp::Plus => Some(Product::Value(x@->Small_0 + y@->Small_0)),
            ArithOp::Minus => Some(Product::Value(x@->Small_0 - y@->Small_0)),
            ArithOp::Div => if y@->Small_0 != 0 {
                Some(Product::Value(quotient(x@->Small_0, y@->Small_0)))
            } else {
                None
            },
            _ => if y@->Small_0 != 0 {
                Some(Product::Value(rest(x@->Small_0, y@->Small_0)))
            } else {
                None
            },
        }
    }
}

/// The state with the integer `v` written to the register `dst`: as a
/// small integer where it fits, else as a bignum at the end of the heap.
pub open spec fn with_integer(m: Machine, dst: Term, v: int) -> Step {
    if small_fits_spec(v) {
        Step {
            m: stored(m, dst, Term { value: word_of_kind(TermKind::Small(v)) })->Some_0,
            r: DispatchResult::Normal,
        }
    } else {
        Step {
            m: stored(
                Machine { heap: m.heap + integer_image(v), ..m },
                dst,
                Term { value: word_of_kind(TermKind::Boxed(m.heap.len())) },
            )->Some_0,
            r: DispatchResult::Normal,
        }
    }
}

/// Whether the heap has room for the result.
pub open spec fn has_room(m: Machine, result: Product) -> bool {
    match result {
        Product::Same(t) => true,
        Product::Value(v) => small_fits_spec(v) || room_for(
            m.heap.len(),
            m.heap_limit,
            integer_image(v).len(),
        ),
    }
}

/// The state with the result written to the register `dst`.
pub open spec fn with_result(m: Machine, dst: Term, result: Product) -> Step {
    match result {
        Product::Same(t) => Step { m: stored(m, dst, t)->Some_0, r: DispatchResult::Normal },
        Product::Value(v) => with_integer(m, dst, v),
    }
}

/// An arithmetic instruction of `width` operands: `bif` names the import,
/// `x` and `y` are the operands, `dst` takes the result.  Where the
/// arithmetic cannot be done, the instruction jumps to `fail`, or raises
/// `badarith` where `fail` is no label.
pub open spec fn op_arith(
    module: Module,
    m: Machine,
    width: int,
    fail: Term,
    bif: Term,
    x: Term,
    y: Term,
    dst: Term,
) -> Step {
    if count_of(bif) is None || import_at(module, count_of(bif)->Some_0) is None || arith_bif(
        import_at(module, count_of(bif)->Some_0)->Some_0,
    ) is None {
        raise(m, ExceptionReason::Undef)
    } else if loaded(m, x) is None || loaded(m, y) is None || stored(m, dst, nil()) is None {
        raise(m, ExceptionReason::Badarg)
    } else {
        match arith_value(
            arith_bif(import_at(module, count_of(bif)->Some_0)->Some_0)->Some_0,
            m.heap,
            loaded(m, x)->Some_0,
            loaded(m, y)->Some_0,
        ) {
            None => if is_target(fail) {
                jump(m, fail)
            } else {
                raise(m, ExceptionReason::Badarith)
            },
            Some(result) => if !has_room(m, result) {
                raise(m, ExceptionReason::SystemLimit)
            } else {
                with_result(behind(m, width), dst, result)
            },
        }
    }
}

/// `bif2 Fail Bif A B Dst`.
pub open spec fn op_bif2(module: Module, m: Machine) -> Step {
    if !has_operands(module.code@, m, 5) {
        raise(m, ExceptionReason::Badarg)
    } else {
        op_arith(
            module,
            m,
            5,
            arg(module.code@, m, 0),
            arg(module.code@, m, 1),
            arg(module.code@, m, 2),
            arg(module.code@, m, 3),
            arg(module.code@, m, 4),
        )
    }
}

/// `gc_bif2 Fail Live Bif A B Dst`.
pub open spec fn op_gc_bif2(module: Module, m: Machine) -> Step {
    if !has_operands(module.code@, m, 6) {
        raise(m, ExceptionReason::Badarg)
    } else {
        op_arith(
            module,
            m,
            6,
            arg(module.code@, m, 0),
            arg(module.code@, m, 2),
            arg(module.code@, m, 3),
            arg(module.code@, m, 4),
            arg(module.code@, m, 5),
        )
    }
}

/// `bif0`, `bif1`, `gc_bif1` and `gc_bif3`: the runtime itself has no
/// function of these arities, so the function is not defined.
pub open spec fn op_undefined_bif(m: Machine) -> Step {
    raise(m, ExceptionReason::Undef)
}

/// `call_ext_only Arity Import`: jumps to the function that the import
/// names.  This core runs one module: the import has to name a function of
/// the module itself, else the function is not defined.
pub open spec fn op_call_ext_only(module: Module, m: Machine) -> Step {
    if !has_operands(module.code@, m, 2) {
        raise(m, ExceptionReason::Badarg)
    } else if count_arg(module.code@, m, 1) is None || import_at(
        module,
        count_arg(module.code@, m, 1)->Some_0,
    ) is None {
        raise(m, ExceptionReason::Undef)
    } else {
        local_target(module, m, import_at(module, count_arg(module.code@, m, 1)->Some_0)->Some_0)
    }
}

/// The jump to the function of the module that `mfa` names.
pub open spec fn local_target(module: Module, m: Machine, mfa: Mfa) -> Step {
    if mfa.m == module.name.module && mfa.f@ is Atom && count_of(mfa.a) is Some && count_of(
        mfa.a,
    )->Some_0 < ARITY_LIMIT && module.funs@.contains_key(
        fun_key(mfa.f@->Atom_0, count_of(mfa.a)->Some_0) as u64,
    ) {
        Step {
            m: Machine {
                ip: module.funs@[fun_key(mfa.f@->Atom_0, count_of(mfa.a)->Some_0) as u64],
                ..m
            },
            r: DispatchResult::Normal,
        }
    } else {
        raise(m, ExceptionReason::Undef)
    }
}

/// Reads import `index` of the module.
fn read_import(module: &Module, index: u64) -> (r: Option<(Term, Term, Term)>)
    ensures
        match import_at(*module, index as nat) {
            Some(mfa) => r == Some((mfa.m, mfa.f, mfa.a)),
            None => r.is_none(),
        },
{
    if index >= module.imports.len() as u64 {
        return None;
    }
    let t: Term = module.imports[index as usize];
    let p: usize = match Tuple::from_term(&module.lit_heap, t) {
        Ok(p) => p,
        Err(e) => {
            return None;
        },
    };
    if Tuple::get_arity(&module.lit_heap, p) != 3 {
        return None;
    }
    Some(
        (
            Tuple::get_element(&module.lit_heap, p, 0),
            Tuple::get_element(&module.lit_heap, p, 1),
            Tuple::get_element(&module.lit_heap, p, 2),
        ),
    )
}

/// The arithmetic that an import stands for.
fn bif_of(m: Term, f: Term, a: Term) -> (r: Option<ArithOp>)
    ensures
        r == arith_bif(Mfa { m, f, a }),
{
    if !(m.is_atom() && m.atom_index() == ATOM_ERLANG) {
        return None;
    }
    if !(a.is_small() && a.get_small_signed() == 2) {
        return None;
    }
    if !f.is_atom() {
        return None;
    }
    let name: u64 = f.atom_index();
    if name == ATOM_PLUS {
        Some(ArithOp::Plus)
    } else if name == ATOM_MINUS {
        Some(ArithOp::Minus)
    } else if name == ATOM_TIMES {
        Some(ArithOp::Times)
    } else if name == ATOM_DIV {
        Some(ArithOp::Div)
    } else if name == ATOM_REM {
        Some(ArithOp::Rem)
    } else {
        None
    }
}

/// Does the arithmetic on the heap.
fn compute(hp: &mut Heap, op: ArithOp, x: Term, y: Term) -> (r: Result<Term, RtErr>)
    ensures
        match arith_value(op, old(hp)@, x, y) {
            Some(Product::Same(t)) => r == Ok::<Term, RtErr>(t) && *final(hp) == *old(hp),
            Some(Product::Value(v)) => gives_integer(v, *old(hp), r, *final(hp)),
            None => r matches Err(e) && e == RtErr::Exception(
                ExceptionClass::Error,
                ExceptionReason::Badarith,
            ) && *final(hp) == *old(hp),
        },
{
    match op {
        ArithOp::Plus => plus(hp, x, y),
        ArithOp::Minus => minus(hp, x, y),
        ArithOp::Times => multiply(hp, x, y),
        ArithOp::Div => divide(hp, x, y),
        ArithOp::Rem => remainder(hp, x, y),
    }
}

/// Whether `dst` is a register that is there.
fn is_register(ctx: &Context, proc: &Process, dst: Term) -> (b: bool)
    ensures
        b == stored(machine(*ctx, *proc), dst, nil()) is Some,
{
    if dst.is_regx() {
        dst.get_special_value() < ctx.regs.len() as u64
    } else if dst.is_regy() {
        dst.get_special_value() < proc.stack.len() as u64
    } else {
        false
    }
}

/// An arithmetic instruction.
fn arith_instruction(
    module: &Module,
    ctx: &mut Context,
    curr_p: &mut Process,
    width: usize,
    fail: Term,
    bif: Term,
    x: Term,
    y: Term,
    dst: Term,
) -> (r: DispatchResult)
    requires
        old(ctx).ip + width <= usize::MAX,
    ensures
        gives_step(
            op_arith(
                *module,
                machine(*old(ctx), *old(curr_p)),
                width as int,
                fail,
                bif,
                x,
                y,
                dst,
            ),
            r,
            *final(ctx),
            *final(curr_p),
            *old(curr_p),
        ),
{
    let undef = DispatchResult::Error(ExceptionClass::Error, ExceptionReason::Undef);
    if !(bif.is_small() && bif.get_small_signed() >= 0) {
        return undef;
    }
    let op: ArithOp = match read_import(module, bif.get_small_unsigned()) {
        Some(mfa) => match bif_of(mfa.0, mfa.1, mfa.2) {
            Some(op) => op,
            None => {
                return undef;
            },
        },
        None => {
            return undef;
        },
    };
    let vx = match load_term(ctx, curr_p, x) {
        Some(v) => v,
        None => {
            return badarg_result();
        },
    };
    let vy = match load_term(ctx, curr_p, y) {
        Some(v) => v,
        None => {
            return badarg_result();
        },
    };
    if !is_register(ctx, curr_p, dst) {
        return badarg_result();
    }
    match compute(&mut curr_p.heap, op, vx, vy) {
        Ok(t) => {
            ctx.ip = ctx.ip + width;
            let done = store_term(ctx, curr_p, dst, t);
            DispatchResult::Normal
        },
        Err(RtErr::HeapOutOfMemory) => DispatchResult::Error(
            ExceptionClass::Error,
            ExceptionReason::SystemLimit,
        ),
        Err(e) => {
            if fail.is_cp() && fail.get_cp_offset() <= usize::MAX as u64 {
                jump_to(ctx, fail)
            } else {
                DispatchResult::Error(ExceptionClass::Error, ExceptionReason::Badarith)
            }
        },
    }
}

pub fn opcode_bif2(module: &Module, ctx: &mut Context, curr_p: &mut Process) -> (r: DispatchResult)
    ensures
        gives_step(
            op_bif2(*module, machine(*old(ctx), *old(curr_p))),
            r,
            *final(ctx),
            *final(curr_p),
            *old(curr_p),
        ),
{
    assert_arity(RawOpcode(OPCODE_BIF2), 5);
    let code = module.code.as_slice();
    if !operands_there(code, ctx, 5) {
        return badarg_result();
    }
    arith_instruction(
        module,
        ctx,
        curr_p,
        5,
        fetch(code, ctx, 0),
        fetch(code, ctx, 1),
        fetch(code, ctx, 2),
        fetch(code, ctx, 3),
        fetch(code, ctx, 4),
    )
}

pub fn opcode_gc_bif2(module: &Module, ctx: &mut Context, curr_p: &mut Process) -> (r:
    DispatchResult)
    ensures
        gives_step(
            op_gc_bif2(*module, machine(*old(ctx), *old(curr_p))),
            r,
            *final(ctx),
            *final(curr_p),
            *old(curr_p),
        ),
{
    assert_arity(RawOpcode(OPCODE_GC_BIF2), 6);
    let code = module.code.as_slice();
    if !operands_there(code, ctx, 6) {
        return badarg_result();
    }
    arith_instruction(
        module,
        ctx,
        curr_p,
        6,
        fetch(code, ctx, 0),
        fetch(code, ctx, 2),
        fetch(code, ctx, 3),
        fetch(code, ctx, 4),
        fetch(code, ctx, 5),
    )
}

/// `bif0`, `bif1`, `gc_bif1` and `gc_bif3`.
pub fn opcode_undefined_bif(ctx: &mut Context, curr_p: &mut Process) -> (r: DispatchResult)
    ensures
        gives_step(
            op_undefined_bif(machine(*old(ctx), *old(curr_p))),
            r,
            *final(ctx),
            *final(curr_p),
            *old(curr_p),
        ),
{
    assert_arity(RawOpcode(OPCODE_BIF0), 2);
    assert_arity(RawOpcode(OPCODE_BIF1), 4);
    assert_arity(RawOpcode(OPCODE_GC_BIF1), 5);
    assert_arity(RawOpcode(OPCODE_GC_BIF3), 7);
    DispatchResult::Error(ExceptionClass::Error, ExceptionReason::Undef)
}

pub fn opcode_call_ext_only(module: &Module, ctx: &mut Context, curr_p: &mut Process) -> (r:
    DispatchResult)
    ensures
        gives_step(
            op_call_ext_only(*module, machine(*old(ctx), *old(curr_p))),
            r,
            *final(ctx),
            *final(curr_p),
            *old(curr_p),
        ),
{
    assert_arity(RawOpcode(OPCODE_CALL_EXT_ONLY), 2);
    let code = module.code.as_slice();
    if !operands_there(code, ctx, 2) {
        return badarg_result();
    }
    let undef = DispatchResult::Error(ExceptionClass::Error, ExceptionReason::Undef);
    let index: u64 = match fetch_count(code, ctx, 1) {
        Some(n) => n,
        None => {
            return undef;
        },
    };
    let mfa = match read_import(module, index) {
        Some(mfa) => mfa,
        None => {
            return undef;
        },
    };
    if mfa.0.raw() != module.name.module.raw() {
        return undef;
    }
    if !(mfa.2.is_small() && mfa.2.get_small_signed() >= 0) {
        return undef;
    }
    match module.find_fun(mfa.1, mfa.2.get_small_unsigned()) {
        Some(offset) => {
            ctx.ip = offset;
            DispatchResult::Normal
        },
        None => undef,
    }
}

} // verus!
