//! A process and the context in which it runs: the registers, the stack,
//! the heap, and how an instruction reads its operands.
use vstd::prelude::*;
use crate::fail::{ExceptionClass, ExceptionReason};
use crate::heap::Heap;
use crate::module::Module;
use crate::term::{Term, TermKind};
use crate::tuple::{tuple_at, Tuple};

verus! {

/// The number of X registers.
pub const MAX_XREGS: usize = 256;

/// The most terms that a stack holds.
pub const STACK_LIMIT: usize = 0x10_0000;

/// How the dispatch of one instruction ends.
#[derive(Clone, Copy, Debug, PartialEq, Eq, Structural)]
pub enum DispatchResult {
    /// Go on with the next instruction.
    Normal,
    /// The scheduler should run another process.
    Yield,
    /// The process waits; the scheduler should run another.
    Wait,
    /// The process has ended.
    Finished,
    /// The process raises an exception.
    Error(ExceptionClass, ExceptionReason),
}

#[derive(Clone, Copy, Debug, PartialEq, Eq, Structural)]
pub enum ProcessStatus {
    Runnable,
    Waiting,
    Exiting,
}

/// What a process runs in: the instruction pointer, the continuation
/// pointer, the X registers and the reductions that are left.
#[derive(Debug)]
pub struct Context {
    /// The offset of the next word of the code.
    pub ip: usize,
    /// Where `return` goes on: a code pointer, or nil at the outermost call.
    pub cp: Term,
    pub regs: Vec<Term>,
    pub reductions: i64,
}

/// A process: its heap, its stack, its mailbox and its status.
#[derive(Debug)]
pub struct Process {
    pub heap: Heap,
    /// The stack.  Y register `n` is the `n`-th term from the top.
    pub stack: Vec<Term>,
    pub mailbox: Vec<Term>,
    pub status: ProcessStatus,
}

/// The state of a running process, as the contracts of the dispatch core
/// speak of it.
pub struct Machine {
    pub ip: usize,
    pub cp: Term,
    pub regs: Seq<Term>,
    pub reductions: i64,
    pub stack: Seq<Term>,
    pub heap: Seq<u64>,
    pub heap_limit: nat,
}

/// The state of the process in its context.
pub open spec fn machine(ctx: Context, proc: Process) -> Machine {
    Machine {
        ip: ctx.ip,
        cp: ctx.cp,
        regs: ctx.regs@,
        reductions: ctx.reductions,
        stack: proc.stack@,
        heap: proc.heap@,
        heap_limit: proc.heap.limit(),
    }
}

/// The `badarg` error.
pub open spec fn badarg() -> DispatchResult {
    DispatchResult::Error(ExceptionClass::Error, ExceptionReason::Badarg)
}

/// Operand `i` of the instruction whose operands begin at the instruction
/// pointer; `None` behind the end of the code.
pub open spec fn operand_at(code: Seq<u64>, ip: usize, i: int) -> Option<Term> {
    if ip + i < code.len() {
        Some(Term { value: code[ip + i] })
    } else {
        None
    }
}

/// The value of an operand: what the register holds for a reference to a
/// register, else the operand itself.  `None` for a register that is not
/// there.
pub open spec fn loaded(m: Machine, t: Term) -> Option<Term> {
    if t@ is RegX {
        if t@->RegX_0 < m.regs.len() {
            Some(m.regs[t@->RegX_0 as int])
        } else {
            None
        }
    } else if t@ is RegY {
        if t@->RegY_0 < m.stack.len() {
            Some(m.stack[m.stack.len() - 1 - t@->RegY_0])
        } else {
            None
        }
    } else {
        Some(t)
    }
}

/// The state with `v` written to the register `dst`; `None` where `dst` is
/// no register that is there.
pub open spec fn stored(m: Machine, dst: Term, v: Term) -> Option<Machine> {
    if dst@ is RegX && dst@->RegX_0 < m.regs.len() {
        Some(Machine { regs: m.regs.update(dst@->RegX_0 as int, v), ..m })
    } else if dst@ is RegY && dst@->RegY_0 < m.stack.len() {
        Some(Machine { stack: m.stack.update(m.stack.len() - 1 - dst@->RegY_0, v), ..m })
    } else {
        None
    }
}

impl Context {
    /// A context at the start of the code, with all registers nil.
    pub fn new(ip: usize, reductions: i64) -> (ctx: Context)
        ensures
            ctx.ip == ip,
            ctx.cp@ == TermKind::Nil,
            ctx.reductions == reductions,
            ctx.regs@.len() == MAX_XREGS,
            forall|i: int| 0 <= i < MAX_XREGS ==> (#[trigger] ctx.regs@[i])@ == TermKind::Nil,
    {
        let mut regs: Vec<Term> = Vec::new();
        let mut i: usize = 0;
        while i < MAX_XREGS
            invariant
                i <= MAX_XREGS,
                regs@.len() == i,
                forall|k: int| 0 <= k < i ==> (#[trigger] regs@[k])@ == TermKind::Nil,
            decreases MAX_XREGS - i,
        {
            regs.push(Term::nil());
            i += 1;
        }
        Context { ip, cp: Term::nil(), regs, reductions }
    }

    /// Operand `i` as a term: for immediates and atoms.
    pub fn op_arg_read_term_at(&self, code: &[u64], i: usize) -> (r: Option<Term>)
        ensures
            r == operand_at(code@, self.ip, i as int),
    {
        if self.ip >= code.len() || i >= code.len() - self.ip {
            return None;
        }
        Some(Term::from_raw(code[self.ip + i]))
    }

    /// Operand `i` as a number: the operand has to be a small integer that
    /// is not negative.
    pub fn op_arg_read_usize_at(&self, code: &[u64], i: usize) -> (r: Option<u64>)
        ensures
            match operand_at(code@, self.ip, i as int) {
                Some(t) => if t@ is Small && t@->Small_0 >= 0 {
                    r == Some(t@->Small_0 as u64)
                } else {
                    r.is_none()
                },
                None => r.is_none(),
            },
    {
        match self.op_arg_read_term_at(code, i) {
            Some(t) => if t.is_small() && t.get_small_signed() >= 0 {
                Some(t.get_small_unsigned())
            } else {
                None
            },
            None => None,
        }
    }
}

/// The terms in the `n` words from operand `i` on; `None` where the code
/// ends before them.
pub open spec fn operands_slice(code: Seq<u64>, ip: usize, i: int, n: int) -> Option<Seq<Term>> {
    if ip + i + n <= code.len() {
        Some(Seq::new(n as nat, |k: int| Term { value: code[ip + i + k] }))
    } else {
        None
    }
}

impl Context {
    /// Operand `i`, loaded: the value of the register where the operand is
    /// a reference to one, else the operand.
    pub fn op_arg_load_term_at(&self, code: &[u64], i: usize, proc: &Process) -> (r: Option<Term>)
        ensures
            r == match operand_at(code@, self.ip, i as int) {
                Some(t) => loaded(machine(*self, *proc), t),
                None => None,
            },
    {
        match self.op_arg_read_term_at(code, i) {
            Some(t) => load_term(self, proc, t),
            None => None,
        }
    }

    /// The `n` operands from operand `i` on, as terms.
    pub fn op_arg_term_slice_at(&self, code: &[u64], i: usize, n: usize) -> (r: Option<Vec<Term>>)
        ensures
            match operands_slice(code@, self.ip, i as int, n as int) {
                Some(terms) => r matches Some(v) && v@ == terms,
                None => r.is_none(),
            },
    {
        let len: usize = code.len();
        if self.ip > len || i > len - self.ip || n > len - self.ip - i {
            return None;
        }
        let first: usize = self.ip + i;
        let mut out: Vec<Term> = Vec::new();
        let mut k: usize = 0;
        while k < n
            invariant
                k <= n,
                first + n <= len,
                len == code@.len(),
                out@.len() == k,
                forall|j: int| 0 <= j < k ==> (#[trigger] out@[j]).value == code@[first + j],
            decreases n - k,
        {
            out.push(Term::from_raw(code[first + k]));
            k += 1;
        }
        assert(out@ =~= operands_slice(code@, self.ip, i as int, n as int)->Some_0);
        Some(out)
    }

    /// Operand `i`, which has to be a code pointer or nil.
    pub fn op_arg_cp_or_nil_at(&self, code: &[u64], i: usize) -> (r: Option<Term>)
        ensures
            match operand_at(code@, self.ip, i as int) {
                Some(t) => if t@ is Cp || t@ is Nil {
                    r == Some(t)
                } else {
                    r.is_none()
                },
                None => r.is_none(),
            },
    {
        match self.op_arg_read_term_at(code, i) {
            Some(t) => if t.is_cp() || t.is_nil() {
                Some(t)
            } else {
                None
            },
            None => None,
        }
    }

    /// Operand `i` as the offset of a tuple: the operand has to point to a
    /// tuple on the heap, and is not loaded from a register.
    pub fn op_arg_literal_tuple_at(&self, code: &[u64], i: usize, hp: &Heap) -> (r: Option<usize>)
        ensures
            match operand_at(code@, self.ip, i as int) {
                Some(t) => if t@ is Boxed && tuple_at(hp@, t@->Boxed_0 as int) {
                    r matches Some(p) && p == t@->Boxed_0
                } else {
                    r.is_none()
                },
                None => r.is_none(),
            },
    {
        match self.op_arg_read_term_at(code, i) {
            Some(t) => match Tuple::from_term(hp, t) {
                Ok(p) => Some(p),
                Err(e) => None,
            },
            None => None,
        }
    }

    /// Operand `i`, which has to be a reference to a Y register.
    pub fn op_arg_yreg_at(&self, code: &[u64], i: usize) -> (r: Option<Term>)
        ensures
            match operand_at(code@, self.ip, i as int) {
                Some(t) => if t@ is RegY {
                    r == Some(t)
                } else {
                    r.is_none()
                },
                None => r.is_none(),
            },
    {
        match self.op_arg_read_term_at(code, i) {
            Some(t) => if t.is_regy() {
                Some(t)
            } else {
                None
            },
            None => None,
        }
    }
}

impl Process {
    /// A runnable process for the code of a module: its heap begins with the
    /// literals of the module, so that the pointers in the code are pointers
    /// into the heap of the process, and has room for `heap_words` words
    /// more.
    pub fn for_module(module: &Module, heap_words: usize) -> (p: Process)
        ensures
            p.heap@ == module.lit_heap@,
            p.heap.limit() == module.lit_heap@.len() + heap_words,
            p.stack@.len() == 0,
            p.mailbox@.len() == 0,
            p.status == ProcessStatus::Runnable,
    {
        Process {
            heap: module.lit_heap.duplicate_with_room(heap_words),
            stack: Vec::new(),
            mailbox: Vec::new(),
            status: ProcessStatus::Runnable,
        }
    }

    /// A runnable process with an empty stack and a heap of `heap_words`
    /// words.
    pub fn new(heap_words: usize) -> (p: Process)
        ensures
            p.heap@.len() == 0,
            p.heap.limit() == heap_words,
            p.stack@.len() == 0,
            p.mailbox@.len() == 0,
            p.status == ProcessStatus::Runnable,
    {
        Process {
            heap: Heap::new(heap_words),
            stack: Vec::new(),
            mailbox: Vec::new(),
            status: ProcessStatus::Runnable,
        }
    }
}

/// The value of an operand: a register reference is loaded, anything else
/// is the value.
pub fn load_term(ctx: &Context, proc: &Process, t: Term) -> (r: Option<Term>)
    ensures
        r == loaded(machine(*ctx, *proc), t),
{
    if t.is_regx() {
        let n: u64 = t.get_special_value();
        if n < ctx.regs.len() as u64 {
            Some(ctx.regs[n as usize])
        } else {
            None
        }
    } else if t.is_regy() {
        let n: u64 = t.get_special_value();
        let depth: usize = proc.stack.len();
        if n < depth as u64 {
            Some(proc.stack[depth - 1 - n as usize])
        } else {
            None
        }
    } else {
        Some(t)
    }
}

/// Writes `v` to the register `dst`.  Returns whether `dst` is a register
/// that is there; where it is not, nothing changes.
pub fn store_term(ctx: &mut Context, proc: &mut Process, dst: Term, v: Term) -> (done: bool)
    ensures
        match stored(machine(*old(ctx), *old(proc)), dst, v) {
            Some(m) => done && machine(*final(ctx), *final(proc)) == m,
            None => !done && machine(*final(ctx), *final(proc)) == machine(*old(ctx), *old(proc)),
        },
        final(proc).mailbox == old(proc).mailbox,
        final(proc).status == old(proc).status,
{
    if dst.is_regx() {
        let n: u64 = dst.get_special_value();
        if n < ctx.regs.len() as u64 {
            ctx.regs[n as usize] = v;
            return true;
        }
        false
    } else if dst.is_regy() {
        let n: u64 = dst.get_special_value();
        let depth: usize = proc.stack.len();
        if n < depth as u64 {
            proc.stack[depth - 1 - n as usize] = v;
            return true;
        }
        false
    } else {
        false
    }
}

} // verus!
