use erlangrt::bignum::Bignum;
use erlangrt::code_srv::CodeServer;
use erlangrt::container::Chunk;
use erlangrt::container_write::write_container;
use erlangrt::fail::{ExceptionClass, ExceptionReason};
use erlangrt::gen_op::{
    RawOpcode, OPCODE_ALLOCATE, OPCODE_BIF0, OPCODE_CALL, OPCODE_CALL_EXT_ONLY, OPCODE_CALL_ONLY,
    OPCODE_DEALLOCATE, OPCODE_FUNC_INFO, OPCODE_GC_BIF2, OPCODE_GET_LIST, OPCODE_IS_EQ_EXACT,
    OPCODE_IS_LT, OPCODE_IS_NIL, OPCODE_IS_NONEMPTY_LIST, OPCODE_JUMP, OPCODE_LABEL, OPCODE_MOVE,
    OPCODE_PUT_LIST, OPCODE_RETURN, OPCODE_TEST_HEAP,
};
use erlangrt::load::load_module;
use erlangrt::module::Module;
use erlangrt::runtime_ctx::{
    load_term, store_term, Context, DispatchResult, Process, ProcessStatus, MAX_XREGS,
};
use erlangrt::term::{
    Term, SPECIAL_LT_ATOM, SPECIAL_LT_LABEL, SPECIAL_LT_REGX, SPECIAL_LT_REGY,
};
use erlangrt::vm_dispatch::{dispatch_op_inline, run, unknown_opcode, RunResult};

fn atom(n: u64) -> Term {
    Term::make_loadtime(SPECIAL_LT_ATOM, n)
}

fn label(n: u64) -> Term {
    Term::make_loadtime(SPECIAL_LT_LABEL, n)
}

fn x(n: u64) -> Term {
    Term::make_loadtime(SPECIAL_LT_REGX, n)
}

fn y(n: u64) -> Term {
    Term::make_loadtime(SPECIAL_LT_REGY, n)
}

fn small(n: i64) -> Term {
    Term::make_small_signed(n)
}

fn op(out: &mut Vec<u8>, opcode: u8, args: &[Term]) {
    out.push(opcode);
    for a in args {
        assert!(erlangrt::compact_write::write(*a, out));
    }
}

fn words(values: &[u32]) -> Vec<u8> {
    values.iter().flat_map(|v| v.to_be_bytes()).collect()
}

fn chunk(tag: &[u8; 4], payload: Vec<u8>) -> Chunk {
    Chunk { tag: u32::from_be_bytes(*tag), payload }
}

/// A module `t` with the atoms `t`, `erlang`, `*`, `div`, `f`, and the
/// imports `erlang:'*'/2`, `erlang:div/2`, `t:f/0` and `erlang:f/0`.
fn module(bytecode: &[u8]) -> Box<Module> {
    let names = ["t", "erlang", "*", "div", "f"];
    let mut atoms = (names.len() as u32).to_be_bytes().to_vec();
    for n in names {
        atoms.push(n.len() as u8);
        atoms.extend_from_slice(n.as_bytes());
    }
    let mut code = words(&[16, 0, 159, 8, 1]);
    code.extend_from_slice(bytecode);
    let chunks = vec![
        chunk(b"AtU8", atoms),
        chunk(b"Code", code),
        chunk(b"ImpT", words(&[4, 2, 3, 2, 2, 4, 2, 1, 5, 0, 2, 5, 0])),
        chunk(b"ExpT", words(&[0])),
    ];
    let mut srv = CodeServer::new();
    load_module(&mut srv, write_container(&chunks).unwrap()).unwrap()
}

fn error(reason: ExceptionReason) -> DispatchResult {
    DispatchResult::Error(ExceptionClass::Error, reason)
}

#[test]
fn reduction_yield() {
    // a loop of two instructions, and a loop of one
    let mut code = Vec::new();
    op(&mut code, OPCODE_LABEL, &[small(1)]);
    op(&mut code, OPCODE_MOVE, &[small(7), x(0)]);
    op(&mut code, OPCODE_CALL_ONLY, &[small(0), label(1)]);
    let m = module(&code);
    for n in [0i64, 1, 2, 3, 10, 1001] {
        let mut ctx = Context::new(0, n);
        let mut p = Process::new(100);
        let r = run(&m, &mut ctx, &mut p);
        assert_eq!(r, RunResult { result: DispatchResult::Yield, executed: n as u64 });
        assert_eq!(ctx.reductions, 0);
        assert_eq!(ctx.ip, if n % 2 == 0 { 0 } else { 3 });
        assert_eq!(p.status, ProcessStatus::Runnable);
    }
    let mut ctx = Context::new(0, -5);
    let mut p = Process::new(100);
    assert_eq!(run(&m, &mut ctx, &mut p).executed, 0);
    assert_eq!(ctx.reductions, -5);
}

#[test]
fn same_state_same_run() {
    let mut code = Vec::new();
    op(&mut code, OPCODE_LABEL, &[small(1)]);
    op(&mut code, OPCODE_PUT_LIST, &[x(0), x(1), x(1)]);
    op(&mut code, OPCODE_CALL_ONLY, &[small(0), label(1)]);
    let m = module(&code);
    let mut runs = Vec::new();
    for _ in 0..2 {
        let mut ctx = Context::new(0, 50);
        let mut p = Process::new(31);
        ctx.regs[0] = small(5);
        let r = run(&m, &mut ctx, &mut p);
        runs.push((r, ctx.ip, ctx.regs.clone(), p.heap.allocated(), p.stack.clone()));
    }
    assert_eq!(runs[0], runs[1]);
    assert_eq!(runs[0].0.result, error(ExceptionReason::SystemLimit));
    assert_eq!(runs[0].0.executed, 31);
    assert_eq!(runs[0].3, 30);
}

#[test]
fn call_and_return() {
    let mut code = Vec::new();
    op(&mut code, OPCODE_LABEL, &[small(1)]);
    op(&mut code, OPCODE_ALLOCATE, &[small(1), small(0)]);
    op(&mut code, OPCODE_MOVE, &[small(11), y(0)]);
    op(&mut code, OPCODE_CALL, &[small(0), label(2)]);
    op(&mut code, OPCODE_MOVE, &[y(0), x(1)]);
    op(&mut code, OPCODE_DEALLOCATE, &[small(1)]);
    op(&mut code, OPCODE_RETURN, &[]);
    op(&mut code, OPCODE_LABEL, &[small(2)]);
    op(&mut code, OPCODE_MOVE, &[small(22), x(0)]);
    op(&mut code, OPCODE_RETURN, &[]);
    let m = module(&code);
    let mut ctx = Context::new(0, 100);
    let mut p = Process::new(100);
    let r = run(&m, &mut ctx, &mut p);
    assert_eq!(r, RunResult { result: DispatchResult::Finished, executed: 8 });
    assert_eq!(ctx.regs[0], small(22));
    assert_eq!(ctx.regs[1], small(11));
    assert!(p.stack.is_empty());
    assert!(ctx.cp.is_nil());
    assert_eq!(ctx.reductions, 92);
    assert_eq!(ctx.regs.len(), MAX_XREGS);
}

fn arith_module(import: u64) -> Box<Module> {
    let mut code = Vec::new();
    op(&mut code, OPCODE_LABEL, &[small(1)]);
    op(&mut code, OPCODE_GC_BIF2, &[label(2), small(2), small(import as i64), x(0), x(1), x(2)]);
    op(&mut code, OPCODE_RETURN, &[]);
    op(&mut code, OPCODE_LABEL, &[small(2)]);
    op(&mut code, OPCODE_MOVE, &[small(-1), x(2)]);
    op(&mut code, OPCODE_RETURN, &[]);
    module(&code)
}

#[test]
fn arithmetic_through_the_import() {
    let times = arith_module(0);
    let mut ctx = Context::new(0, 100);
    let mut p = Process::new(100);
    ctx.regs[0] = small(1 << 30);
    ctx.regs[1] = small(1 << 30);
    assert_eq!(run(&times, &mut ctx, &mut p).result, DispatchResult::Finished);
    let big = Bignum::const_from_term(&p.heap, ctx.regs[2]).unwrap();
    assert_eq!(big.get_digits(), &[1u64 << 60][..]);

    let mut ctx = Context::new(0, 100);
    ctx.regs[0] = small(6);
    ctx.regs[1] = small(7);
    assert_eq!(run(&times, &mut ctx, &mut p).result, DispatchResult::Finished);
    assert_eq!(ctx.regs[2], small(42));

    let div = arith_module(1);
    let mut ctx = Context::new(0, 100);
    ctx.regs[0] = small(-7);
    ctx.regs[1] = small(2);
    assert_eq!(run(&div, &mut ctx, &mut p).result, DispatchResult::Finished);
    assert_eq!(ctx.regs[2], small(-3));
    // a division by zero goes to the fail label
    let mut ctx = Context::new(0, 100);
    ctx.regs[0] = small(7);
    ctx.regs[1] = small(0);
    let r = run(&div, &mut ctx, &mut p);
    assert_eq!(r, RunResult { result: DispatchResult::Finished, executed: 3 });
    assert_eq!(ctx.regs[2], small(-1));
    // an import that is no arithmetic
    let other = arith_module(2);
    let mut ctx = Context::new(0, 100);
    assert_eq!(run(&other, &mut ctx, &mut p).result, error(ExceptionReason::Undef));
    let none = arith_module(9);
    let mut ctx = Context::new(0, 100);
    assert_eq!(run(&none, &mut ctx, &mut p).result, error(ExceptionReason::Undef));
}

#[test]
fn arithmetic_without_a_fail_label() {
    let mut code = Vec::new();
    op(&mut code, OPCODE_GC_BIF2, &[Term::nil(), small(2), small(0), x(0), x(1), x(2)]);
    op(&mut code, OPCODE_RETURN, &[]);
    let m = module(&code);
    let mut ctx = Context::new(0, 100);
    let mut p = Process::new(100);
    ctx.regs[0] = Term::make_atom(0);
    ctx.regs[1] = small(1);
    assert_eq!(run(&m, &mut ctx, &mut p).result, error(ExceptionReason::Badarith));
    let mut full = Process::new(2);
    let mut ctx = Context::new(0, 100);
    ctx.regs[0] = small(1 << 40);
    ctx.regs[1] = small(1 << 40);
    assert_eq!(run(&m, &mut ctx, &mut full).result, error(ExceptionReason::SystemLimit));
    assert_eq!(full.heap.allocated(), 0);
}

#[test]
fn tests_and_lists() {
    let mut code = Vec::new();
    op(&mut code, OPCODE_LABEL, &[small(1)]);
    op(&mut code, OPCODE_TEST_HEAP, &[small(2), small(2)]);
    op(&mut code, OPCODE_PUT_LIST, &[x(0), small(0), x(2)]);
    op(&mut code, OPCODE_IS_NONEMPTY_LIST, &[label(9), x(2)]);
    op(&mut code, OPCODE_GET_LIST, &[x(2), x(3), x(4)]);
    op(&mut code, OPCODE_IS_EQ_EXACT, &[label(9), x(3), x(0)]);
    op(&mut code, OPCODE_IS_LT, &[label(9), x(0), x(1)]);
    op(&mut code, OPCODE_IS_NIL, &[label(8), x(0)]);
    op(&mut code, OPCODE_RETURN, &[]);
    op(&mut code, OPCODE_LABEL, &[small(8)]);
    op(&mut code, OPCODE_MOVE, &[atom(1), x(5)]);
    op(&mut code, OPCODE_RETURN, &[]);
    op(&mut code, OPCODE_LABEL, &[small(9)]);
    op(&mut code, OPCODE_FUNC_INFO, &[atom(1), atom(5), small(0)]);
    let m = module(&code);
    let mut ctx = Context::new(0, 100);
    let mut p = Process::new(10);
    ctx.regs[0] = small(3);
    ctx.regs[1] = small(4);
    let r = run(&m, &mut ctx, &mut p);
    assert_eq!(r, RunResult { result: DispatchResult::Finished, executed: 9 });
    assert!(ctx.regs[2].is_cons());
    assert_eq!(ctx.regs[3], small(3));
    assert_eq!(ctx.regs[4], small(0));
    assert_eq!(ctx.regs[5], m.name.module);
    assert_eq!(p.heap.allocated(), 2);
    // 4 is not less than 3
    let mut ctx = Context::new(0, 100);
    ctx.regs[0] = small(4);
    ctx.regs[1] = small(3);
    assert_eq!(run(&m, &mut ctx, &mut p).result, error(ExceptionReason::FunctionClause));
    // no room on the heap
    let mut ctx = Context::new(0, 100);
    let mut tiny = Process::new(1);
    assert_eq!(
        run(&m, &mut ctx, &mut tiny),
        RunResult { result: error(ExceptionReason::SystemLimit), executed: 1 }
    );
}

#[test]
fn external_calls() {
    let mut code = Vec::new();
    op(&mut code, OPCODE_LABEL, &[small(1)]);
    op(&mut code, OPCODE_CALL_EXT_ONLY, &[small(0), small(2)]);
    op(&mut code, OPCODE_LABEL, &[small(2)]);
    op(&mut code, OPCODE_FUNC_INFO, &[atom(1), atom(5), small(0)]);
    op(&mut code, OPCODE_LABEL, &[small(3)]);
    op(&mut code, OPCODE_MOVE, &[small(1), x(0)]);
    op(&mut code, OPCODE_RETURN, &[]);
    op(&mut code, OPCODE_LABEL, &[small(4)]);
    op(&mut code, OPCODE_CALL_EXT_ONLY, &[small(0), small(3)]);
    op(&mut code, OPCODE_BIF0, &[small(0), x(0)]);
    let m = module(&code);
    let mut ctx = Context::new(0, 100);
    let mut p = Process::new(10);
    let r = run(&m, &mut ctx, &mut p);
    assert_eq!(r, RunResult { result: DispatchResult::Finished, executed: 3 });
    assert_eq!(ctx.regs[0], small(1));
    // `erlang:f/0` is in another module
    let mut ctx = Context::new(11, 100);
    assert_eq!(run(&m, &mut ctx, &mut p).result, error(ExceptionReason::Undef));
    let mut ctx = Context::new(14, 100);
    assert_eq!(run(&m, &mut ctx, &mut p).result, error(ExceptionReason::Undef));
}

#[test]
fn what_the_core_does_not_run() {
    let mut code = Vec::new();
    op(&mut code, OPCODE_JUMP, &[Term::nil()]);
    op(&mut code, OPCODE_MOVE, &[x(0), small(1)]);
    op(&mut code, OPCODE_MOVE, &[x(300), x(1)]);
    op(&mut code, OPCODE_MOVE, &[y(0), x(1)]);
    op(&mut code, OPCODE_DEALLOCATE, &[small(0)]);
    op(&mut code, OPCODE_CALL, &[small(0), small(0)]);
    let m = module(&code);
    let mut p = Process::new(10);
    let unknown = error(ExceptionReason::UnknownOpcode);
    let mut ctx = Context::new(0, 100);
    assert_eq!(run(&m, &mut ctx, &mut p), RunResult { result: unknown, executed: 1 });
    assert_eq!(ctx.reductions, 99);
    // a word that is no opcode, and a place outside of the code
    let mut ctx = Context::new(1, 100);
    assert_eq!(run(&m, &mut ctx, &mut p), RunResult { result: unknown, executed: 0 });
    let mut ctx = Context::new(1000, 100);
    assert_eq!(run(&m, &mut ctx, &mut p), RunResult { result: unknown, executed: 0 });
    assert_eq!(ctx.reductions, 100);
    for at in [2usize, 5, 8, 11, 13] {
        let mut ctx = Context::new(at, 100);
        assert_eq!(
            run(&m, &mut ctx, &mut p),
            RunResult { result: error(ExceptionReason::Badarg), executed: 1 },
            "at {}",
            at
        );
        assert_eq!(ctx.ip, at + 1);
    }
    let mut ctx = Context::new(0, 100);
    assert_eq!(unknown_opcode(RawOpcode(200), &ctx), unknown);
    assert_eq!(dispatch_op_inline(RawOpcode(200), &m, &mut ctx, &mut p), unknown);
    assert_eq!(dispatch_op_inline(RawOpcode(OPCODE_RETURN), &m, &mut ctx, &mut p), DispatchResult::Finished);
}

#[test]
fn literals_are_on_the_heap_of_the_process() {
    // x0 * 2^70, the factor a bignum in the code
    let mut code = Vec::new();
    code.push(OPCODE_GC_BIF2);
    for t in [Term::nil(), small(2), small(0), x(0)] {
        assert!(erlangrt::compact_write::write(t, &mut code));
    }
    code.extend_from_slice(&[0xf9, 0x00, 0x40, 0, 0, 0, 0, 0, 0, 0, 0]);
    assert!(erlangrt::compact_write::write(x(1), &mut code));
    op(&mut code, OPCODE_RETURN, &[]);
    let m = module(&code);
    let mut ctx = Context::new(0, 100);
    let mut p = Process::for_module(&m, 100);
    assert_eq!(p.heap.allocated(), m.lit_heap.allocated());
    ctx.regs[0] = small(4);
    assert_eq!(run(&m, &mut ctx, &mut p).result, DispatchResult::Finished);
    let big = Bignum::const_from_term(&p.heap, ctx.regs[1]).unwrap();
    assert_eq!(big.get_digits(), &[0u64, 1 << 8][..]);
}

#[test]
fn registers() {
    let mut ctx = Context::new(0, 1);
    let mut p = Process::new(10);
    p.stack.push(small(1));
    p.stack.push(small(2));
    assert_eq!(load_term(&ctx, &p, Term::make_regy(0)), Some(small(2)));
    assert_eq!(load_term(&ctx, &p, Term::make_regy(1)), Some(small(1)));
    assert_eq!(load_term(&ctx, &p, Term::make_regy(2)), None);
    assert_eq!(load_term(&ctx, &p, Term::make_regx(255)), Some(Term::nil()));
    assert_eq!(load_term(&ctx, &p, Term::make_regx(256)), None);
    assert_eq!(load_term(&ctx, &p, small(9)), Some(small(9)));
    assert!(store_term(&mut ctx, &mut p, Term::make_regx(3), small(4)));
    assert!(store_term(&mut ctx, &mut p, Term::make_regy(1), small(5)));
    assert!(!store_term(&mut ctx, &mut p, Term::make_regy(2), small(5)));
    assert!(!store_term(&mut ctx, &mut p, small(1), small(5)));
    assert_eq!(ctx.regs[3], small(4));
    assert_eq!(p.stack, vec![small(5), small(2)]);
    let code = [Term::make_opcode(64).raw(), small(3).raw(), Term::make_atom(1).raw()];
    assert_eq!(ctx.op_arg_read_term_at(&code, 2), Some(Term::make_atom(1)));
    assert_eq!(ctx.op_arg_read_term_at(&code, 3), None);
    assert_eq!(ctx.op_arg_read_usize_at(&code, 1), Some(3));
    assert_eq!(ctx.op_arg_read_usize_at(&code, 2), None);
}
