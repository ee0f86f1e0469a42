use erlangrt::arith::{divide, minus, multiply, multiply_two_small, plus, remainder};
use erlangrt::bignum::{Bignum, Sign};
use erlangrt::bin_reader::BinaryReader;
use erlangrt::fail::{ExceptionClass, ExceptionReason, RtErr};
use erlangrt::heap::{Heap, HEAP_FILLER};
use erlangrt::jump_table::JumpTable;
use erlangrt::number::{mul_limbs, Number};
use erlangrt::term::Term;
use erlangrt::tuple::Tuple;

#[test]
fn heap_allocates_at_the_end() {
    let mut hp = Heap::new(10);
    assert_eq!(hp.allocated(), 0);
    assert_eq!(hp.remaining(), 10);
    assert_eq!(hp.alloc_words(4, true), Ok(0));
    assert_eq!(hp.alloc_words(3, false), Ok(4));
    assert_eq!(hp.allocated(), 7);
    assert_eq!(hp.remaining(), 3);
    for i in 0..4 {
        assert_eq!(hp.get(i), 0);
    }
    for i in 4..7 {
        assert_eq!(hp.get(i), HEAP_FILLER);
    }
    hp.set(5, 42);
    assert_eq!(hp.get(5), 42);
    assert_eq!(hp.get(4), HEAP_FILLER);
}

#[test]
fn heap_out_of_memory_changes_nothing() {
    let mut hp = Heap::new(3);
    assert_eq!(hp.alloc_words(2, true), Ok(0));
    assert_eq!(hp.alloc_words(2, true), Err(RtErr::HeapOutOfMemory));
    assert_eq!(hp.allocated(), 2);
    assert_eq!(hp.remaining(), 1);
    assert_eq!(hp.alloc_words(1, true), Ok(2));
    let copy = hp.duplicate();
    assert_eq!(copy.allocated(), 3);
    assert_eq!(copy.remaining(), 0);
}

#[test]
fn bignum_is_read_back() {
    let mut hp = Heap::new(100);
    let limbs = [0x1111u64, 0x2222, 0x3333];
    let p = Bignum::create_into(&mut hp, Sign::Negative, &limbs).unwrap();
    assert_eq!(p, 0);
    assert_eq!(hp.allocated(), 5);
    let big = Bignum::const_from_term(&hp, Term::make_boxed(p as u64)).unwrap();
    assert!(big.is_negative());
    assert_eq!(big.size, -3);
    assert_eq!(big.get_size(), 3);
    assert_eq!(big.get_byte_size(), 24);
    assert_eq!(big.get_digits(), &limbs[..]);

    let q = Bignum::with_isize(&mut hp, 77).unwrap();
    assert_eq!(q, 5);
    let small = Bignum::const_from_term(&hp, Term::make_boxed(q as u64)).unwrap();
    assert!(!small.is_negative());
    assert_eq!(small.get_digits(), &[77u64][..]);
    let r = Bignum::with_isize(&mut hp, i64::MIN).unwrap();
    let least = Bignum::const_from_term(&hp, Term::make_boxed(r as u64)).unwrap();
    assert!(least.is_negative());
    assert_eq!(least.get_digits(), &[1u64 << 63][..]);
    assert_eq!(Bignum::storage_size(3), 5);
}

#[test]
fn not_a_bignum() {
    let mut hp = Heap::new(100);
    let t = Tuple::create_into(&mut hp, 2).unwrap();
    assert_eq!(
        Bignum::const_from_term(&hp, Term::make_boxed(t as u64)).unwrap_err(),
        RtErr::BoxedIsNotABigint
    );
    assert_eq!(
        Bignum::const_from_term(&hp, Term::make_small_signed(1)).unwrap_err(),
        RtErr::BoxedIsNotABigint
    );
    assert_eq!(
        Bignum::const_from_term(&hp, Term::make_boxed(50)).unwrap_err(),
        RtErr::BoxedIsNotABigint
    );
    let mut full = Heap::new(2);
    assert_eq!(
        Bignum::create_into(&mut full, Sign::Positive, &[1]).unwrap_err(),
        RtErr::HeapOutOfMemory
    );
    assert_eq!(full.allocated(), 0);
}

#[test]
fn jump_table_and_tuple_elements() {
    let mut hp = Heap::new(100);
    let jt = JumpTable::create_into(&mut hp, 2).unwrap();
    assert_eq!(hp.allocated(), 6);
    assert_eq!(JumpTable::get_count(&hp, jt), 2);
    JumpTable::set_element(&mut hp, jt, 0, Term::make_atom(1));
    JumpTable::set_element(&mut hp, jt, 1, Term::make_cp(10));
    JumpTable::set_element(&mut hp, jt, 2, Term::make_atom(2));
    JumpTable::set_element(&mut hp, jt, 3, Term::make_cp(20));
    assert_eq!(JumpTable::get_pair(&hp, jt, 1), (Term::make_atom(2), Term::make_cp(20)));
    assert_eq!(JumpTable::get_element(&hp, jt, 1), Term::make_cp(10));
    assert_eq!(JumpTable::from_term(&hp, Term::make_boxed(jt as u64)), Ok(jt));

    let tp = Tuple::create_into(&mut hp, 3).unwrap();
    assert_eq!(tp, 6);
    assert_eq!(Tuple::get_arity(&hp, tp), 3);
    Tuple::set_element(&mut hp, tp, 2, Term::make_small_signed(9));
    assert_eq!(Tuple::get_element(&hp, tp, 2), Term::make_small_signed(9));
    assert_eq!(Tuple::get_element(&hp, tp, 0), Term::nil());
    assert_eq!(
        JumpTable::from_term(&hp, Term::make_boxed(tp as u64)),
        Err(RtErr::BoxedIsNotAJumpTable)
    );
    assert_eq!(
        Tuple::from_term(&hp, Term::make_boxed(jt as u64)),
        Err(RtErr::BoxedIsNotATuple)
    );
}

fn small(v: i64) -> Term {
    Term::make_small_signed(v)
}

#[test]
fn multiplication_promotion() {
    let mut hp = Heap::new(100);
    let r = multiply(&mut hp, small(1 << 30), small(1 << 30)).unwrap();
    assert!(r.is_boxed());
    let big = Bignum::const_from_term(&hp, r).unwrap();
    assert!(!big.is_negative());
    assert_eq!(big.get_digits(), &[1u64 << 60][..]);
    for x in [0i64, 1, -1, 12345, (1 << 59) - 1, -(1 << 59)] {
        assert_eq!(multiply(&mut hp, small(0), small(x)), Ok(small(0)));
        assert_eq!(multiply(&mut hp, small(x), small(0)), Ok(small(0)));
    }
}

#[test]
fn multiplication_by_one_is_identity() {
    let mut hp = Heap::new(100);
    for x in [0i64, 1, -1, 2, 1 << 40, (1 << 59) - 1, -(1 << 59)] {
        assert_eq!(multiply(&mut hp, small(x), small(1)), Ok(small(x)));
        assert_eq!(multiply(&mut hp, small(1), small(x)), Ok(small(x)));
    }
    assert_eq!(hp.allocated(), 0);
}

#[test]
fn multiplication_at_the_boundary() {
    // the square fits exactly where it is within 60 bits
    let mut hp = Heap::new(100);
    let fits = 759_250_124i64; // floor(sqrt(2^59 - 1))
    assert!(fits * fits <= (1 << 59) - 1);
    assert!((fits + 1) * (fits + 1) > (1 << 59) - 1);
    assert_eq!(multiply(&mut hp, small(fits), small(fits)), Ok(small(fits * fits)));
    assert_eq!(hp.allocated(), 0);
    let r = multiply(&mut hp, small(fits + 1), small(fits + 1)).unwrap();
    assert!(r.is_boxed());
    let big = Bignum::const_from_term(&hp, r).unwrap();
    assert_eq!(big.get_digits(), &[((fits + 1) * (fits + 1)) as u64][..]);
    // -(2^59) is small, +(2^59) is not
    assert_eq!(multiply(&mut hp, small(1 << 58), small(-2)), Ok(small(-(1 << 59))));
    assert!(multiply(&mut hp, small(1 << 58), small(2)).unwrap().is_boxed());
}

#[test]
fn multiplication_of_two_words() {
    let mut hp = Heap::new(100);
    let r = multiply_two_small(&mut hp, i64::MIN, i64::MIN).unwrap();
    let big = Bignum::const_from_term(&hp, r).unwrap();
    assert_eq!(big.get_digits(), &[0u64, 1 << 62][..]);
    let s = multiply_two_small(&mut hp, i64::MAX, -3).unwrap();
    let neg = Bignum::const_from_term(&hp, s).unwrap();
    assert!(neg.is_negative());
    let expected = (i64::MAX as u128) * 3;
    assert_eq!(neg.get_digits(), &[expected as u64, (expected >> 64) as u64][..]);
    let mut none = Heap::new(2);
    assert_eq!(multiply_two_small(&mut none, 1 << 40, 1 << 40), Err(RtErr::HeapOutOfMemory));
    assert_eq!(multiply_two_small(&mut none, 3, 4), Ok(small(12)));
}

#[test]
fn arithmetic_on_small_integers() {
    let mut hp = Heap::new(100);
    assert_eq!(plus(&mut hp, small(2), small(3)), Ok(small(5)));
    assert_eq!(minus(&mut hp, small(2), small(3)), Ok(small(-1)));
    assert_eq!(divide(&mut hp, small(7), small(2)), Ok(small(3)));
    assert_eq!(divide(&mut hp, small(-7), small(2)), Ok(small(-3)));
    assert_eq!(divide(&mut hp, small(7), small(-2)), Ok(small(-3)));
    assert_eq!(divide(&mut hp, small(-7), small(-2)), Ok(small(3)));
    assert_eq!(remainder(&mut hp, small(7), small(2)), Ok(small(1)));
    assert_eq!(remainder(&mut hp, small(-7), small(2)), Ok(small(-1)));
    assert_eq!(remainder(&mut hp, small(7), small(-2)), Ok(small(1)));
    let badarith = RtErr::Exception(ExceptionClass::Error, ExceptionReason::Badarith);
    assert_eq!(divide(&mut hp, small(7), small(0)).unwrap_err(), badarith);
    assert_eq!(remainder(&mut hp, small(7), small(0)).unwrap_err(), badarith);
    assert_eq!(plus(&mut hp, Term::nil(), small(0)).unwrap_err(), badarith);
    assert_eq!(multiply(&mut hp, small(2), Term::make_atom(0)).unwrap_err(), badarith);
    let top = plus(&mut hp, small((1 << 59) - 1), small(1)).unwrap();
    assert!(top.is_boxed());
    assert_eq!(Bignum::const_from_term(&hp, top).unwrap().get_digits(), &[1u64 << 59][..]);
}

#[test]
fn multiplication_of_bignums() {
    let mut hp = Heap::new(100);
    let two_64 = Term::make_boxed(Bignum::create_into(&mut hp, Sign::Positive, &[0, 1]).unwrap() as u64);
    let minus = Term::make_boxed(
        Bignum::create_into(&mut hp, Sign::Negative, &[u64::MAX, u64::MAX]).unwrap() as u64,
    );
    // one leaves the other operand as it is
    let used = hp.allocated();
    assert_eq!(multiply(&mut hp, small(1), two_64), Ok(two_64));
    assert_eq!(multiply(&mut hp, minus, small(1)), Ok(minus));
    assert_eq!(multiply(&mut hp, small(0), minus), Ok(small(0)));
    assert_eq!(hp.allocated(), used);
    // 2^64 * 2^64 = 2^128
    let square = multiply(&mut hp, two_64, two_64).unwrap();
    let big = Bignum::const_from_term(&hp, square).unwrap();
    assert!(!big.is_negative());
    assert_eq!(big.get_digits(), &[0u64, 0, 1][..]);
    // -(2^128 - 1) * 3 = -(3 * 2^128 - 3)
    let tripled = multiply(&mut hp, minus, small(3)).unwrap();
    let neg = Bignum::const_from_term(&hp, tripled).unwrap();
    assert!(neg.is_negative());
    assert_eq!(neg.get_digits(), &[u64::MAX - 2, u64::MAX, 2][..]);
    // (2^128 - 1)^2 = 2^256 - 2^129 + 1
    let squared = multiply(&mut hp, minus, minus).unwrap();
    let pos = Bignum::const_from_term(&hp, squared).unwrap();
    assert!(!pos.is_negative());
    assert_eq!(pos.get_digits(), &[1u64, 0, u64::MAX - 1, u64::MAX][..]);
    // a bignum with a value in the small range gives a small integer
    let seven = Term::make_boxed(Bignum::create_into(&mut hp, Sign::Negative, &[7]).unwrap() as u64);
    assert_eq!(multiply(&mut hp, seven, small(6)), Ok(small(-42)));
    assert_eq!(mul_limbs(&[], &[5]), Vec::<u64>::new());
    assert_eq!(mul_limbs(&[u64::MAX], &[u64::MAX]), vec![1, u64::MAX - 1]);
    assert_eq!(mul_limbs(&[2, 0], &[3, 0, 0]), vec![6]);
    let badarith = RtErr::Exception(ExceptionClass::Error, ExceptionReason::Badarith);
    assert_eq!(multiply(&mut hp, two_64, Term::nil()).unwrap_err(), badarith);
    assert_eq!(multiply(&mut hp, Term::make_boxed(1), small(2)).unwrap_err(), badarith);
}

#[test]
fn reader_reads_and_fails_at_the_end() {
    let mut r = BinaryReader::from_bytes(vec![1, 2, 3, 4, 5, 6, 7, 8, 9]);
    assert_eq!(r.len(), 9);
    assert_eq!(r.peek_u8(), Ok(1));
    assert_eq!(r.position(), 0);
    assert_eq!(r.read_u8(), Ok(1));
    assert_eq!(r.read_u16_be(), Ok(0x0203));
    assert_eq!(r.read_u32_be(), Ok(0x04050607));
    assert_eq!(r.position(), 7);
    assert!(!r.eof());
    assert_eq!(r.read_u32_be(), Err(RtErr::UnexpectedEof));
    assert_eq!(r.read_bytes(3), Err(RtErr::UnexpectedEof));
    assert_eq!(r.position(), 7);
    assert_eq!(r.read_bytes(2), Ok(vec![8, 9]));
    assert!(r.eof());
    assert_eq!(r.read_u8(), Err(RtErr::UnexpectedEof));
    assert_eq!(r.peek_u8(), Err(RtErr::UnexpectedEof));
    assert_eq!(r.read_u16_be(), Err(RtErr::UnexpectedEof));
    assert_eq!(r.read_bytes(0), Ok(vec![]));
    r.reset();
    assert_eq!(r.position(), 0);
    assert_eq!(r.read_u8(), Ok(1));
}

#[test]
fn numbers_from_bytes() {
    let n = Number::from_be_bytes(&[0xff, 0xff], 0, 2, true);
    assert!(n.negative);
    assert_eq!(n.limbs, vec![1]);
    assert_eq!(n.to_small(), Some(-1));
    let m = Number::from_be_bytes(&[0xff, 0xff], 0, 2, false);
    assert_eq!(m.to_small(), Some(65535));
    assert_eq!(m.to_index(65536), Some(65535));
    assert_eq!(m.to_index(65535), None);
    let big = Number::from_be_bytes(&[1, 0, 0, 0, 0, 0, 0, 0, 0], 0, 9, true);
    assert!(!big.negative);
    assert_eq!(big.limbs, vec![0, 1]);
    assert_eq!(big.to_small(), None);
    let least = Number::from_be_bytes(&[0x80, 0, 0, 0, 0, 0, 0, 0, 0], 0, 9, true);
    assert!(least.negative);
    assert_eq!(least.limbs, vec![0, 0x80]);
    let zero = Number::from_be_bytes(&[9, 0, 0, 0], 1, 3, true);
    assert_eq!(zero.limbs, Vec::<u64>::new());
    assert_eq!(zero.to_small(), Some(0));
    assert_eq!(Number::from_u64(0).limbs, Vec::<u64>::new());
    assert_eq!(Number::from_u64(5).to_index(6), Some(5));
}
