use erlangrt::arith::integer_term;
use erlangrt::bignum::{Bignum, Sign};
use erlangrt::bit_writer::{pow2, BitSize, BitWriter, BsFlags};
use erlangrt::fail::{ExceptionClass, ExceptionReason, RtErr};
use erlangrt::heap::Heap;
use erlangrt::runtime_ctx::{Context, Process};
use erlangrt::term::Term;

fn small(v: i64) -> Term {
    Term::make_small_signed(v)
}

#[test]
fn operand_conventions() {
    let code = [
        Term::make_opcode(64).raw(),
        Term::make_regx(2).raw(),
        Term::make_regy(0).raw(),
        Term::make_cp(0).raw(),
        Term::nil().raw(),
        small(9).raw(),
    ];
    let mut ctx = Context::new(1, 10);
    let mut p = Process::new(10);
    ctx.regs[2] = small(5);
    p.stack.push(small(6));
    assert_eq!(ctx.op_arg_load_term_at(&code, 0, &p), Some(small(5)));
    assert_eq!(ctx.op_arg_load_term_at(&code, 1, &p), Some(small(6)));
    assert_eq!(ctx.op_arg_load_term_at(&code, 4, &p), Some(small(9)));
    assert_eq!(ctx.op_arg_load_term_at(&code, 5, &p), None);
    assert_eq!(ctx.op_arg_read_term_at(&code, 0), Some(Term::make_regx(2)));
    assert_eq!(ctx.op_arg_yreg_at(&code, 1), Some(Term::make_regy(0)));
    assert_eq!(ctx.op_arg_yreg_at(&code, 0), None);
    assert_eq!(ctx.op_arg_cp_or_nil_at(&code, 2), Some(Term::make_cp(0)));
    assert_eq!(ctx.op_arg_cp_or_nil_at(&code, 3), Some(Term::nil()));
    assert_eq!(ctx.op_arg_cp_or_nil_at(&code, 4), None);
    assert_eq!(
        ctx.op_arg_term_slice_at(&code, 3, 2),
        Some(vec![Term::nil(), small(9)])
    );
    assert_eq!(ctx.op_arg_term_slice_at(&code, 3, 3), None);
    assert_eq!(ctx.op_arg_term_slice_at(&code, 5, 0), Some(vec![]));
    // an operand that points to a tuple
    let mut hp = Heap::new(10);
    let at = erlangrt::tuple::Tuple::create_into(&mut hp, 1).unwrap();
    let with_tuple = [Term::make_boxed(at as u64).raw(), small(1).raw()];
    let start = Context::new(0, 1);
    assert_eq!(start.op_arg_literal_tuple_at(&with_tuple, 0, &hp), Some(at));
    assert_eq!(start.op_arg_literal_tuple_at(&with_tuple, 1, &hp), None);
    assert_eq!(start.op_arg_literal_tuple_at(&with_tuple, 2, &hp), None);
}

#[test]
fn a_field_within_one_byte() {
    let flags = BsFlags { little: false, signed: false };
    let mut dst = vec![0xffu8, 0xff, 0xff];
    // three bits 101 behind the first two bits of the second byte
    let r = BitWriter::put_integer(
        small(5),
        BitSize { bit_count: 3 },
        &mut dst,
        BitSize { bit_count: 10 },
        flags,
    );
    assert_eq!(r, Ok(()));
    assert_eq!(dst, vec![0xff, 0b1110_1000, 0xff]);
    // the low bits of a negative number
    let mut neg = vec![0u8];
    assert_eq!(
        BitWriter::put_integer(small(-1), BitSize { bit_count: 4 }, &mut neg, BitSize { bit_count: 0 }, flags),
        Ok(())
    );
    assert_eq!(neg, vec![0b1111_0000]);
    // no bits
    let mut same = vec![7u8];
    assert_eq!(
        BitWriter::put_integer(Term::nil(), BitSize { bit_count: 0 }, &mut same, BitSize { bit_count: 99 }, flags),
        Ok(())
    );
    assert_eq!(same, vec![7]);
    // what the writer refuses
    let badarg = RtErr::Exception(ExceptionClass::Error, ExceptionReason::Badarg);
    let limit = || RtErr::Exception(ExceptionClass::Error, ExceptionReason::SystemLimit);
    let put = |val: Term, size: usize, offset: usize| {
        let mut buffer = vec![1u8, 2];
        let r = BitWriter::put_integer(
            val,
            BitSize { bit_count: size },
            &mut buffer,
            BitSize { bit_count: offset },
            flags,
        );
        assert!(r.is_ok() || buffer == vec![1u8, 2]);
        r
    };
    assert_eq!(put(small(1), 1, 16), Err(badarg));
    assert_eq!(put(small(1), 8, 0), Err(limit()));
    assert_eq!(put(small(1), 4, 4), Err(limit()));
    assert_eq!(put(Term::nil(), 1, 0), Err(limit()));
    assert_eq!(put(small(1), 3, 12), Ok(()));
    assert_eq!(pow2(0), 1);
    assert_eq!(pow2(8), 256);
}

#[test]
fn a_bignum_by_its_offset() {
    let mut hp = Heap::new(20);
    let p = Bignum::create_into(&mut hp, Sign::Positive, &[1, 2]).unwrap();
    let t = Term::make_boxed(p as u64);
    assert_eq!(Bignum::mut_from_term(&hp, t), Ok(p));
    hp.set(p + 2, 9);
    assert_eq!(Bignum::const_from_term(&hp, t).unwrap().get_digits(), &[9u64, 2][..]);
    assert_eq!(Bignum::mut_from_term(&hp, Term::nil()), Err(RtErr::BoxedIsNotABigint));
    assert_eq!(integer_term(&mut hp, 12), Ok(small(12)));
    let big = integer_term(&mut hp, -(1i128 << 100)).unwrap();
    let read = Bignum::const_from_term(&hp, big).unwrap();
    assert!(read.is_negative());
    assert_eq!(read.get_digits(), &[0u64, 1 << 36][..]);
}
