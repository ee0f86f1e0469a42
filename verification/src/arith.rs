//! Integer arithmetic on terms: small integers where the result fits, big
//! integers on the heap where it does not.
use vstd::prelude::*;
use crate::bignum::{
    bignum_at, bignum_digits_at, bignum_image, bignum_size_at, count_word, limbs_value, Bignum,
    Sign,
};
use crate::boxed::{header_word, BOXTYPETAG_BIGINTEGER};
use crate::number::{
    integer_image, lemma_canonical_unique, lemma_magnitude_limbs_value, lemma_short_limbs,
    magnitude_limbs, mul_limbs, Number,
};
use crate::boxed::block_fits;
use crate::fail::{ExceptionClass, ExceptionReason, RtErr};
use crate::heap::Heap;
use crate::term::{
    lemma_word_of_kind, small_fits_spec, word_of_kind, Term, TermKind, HEADER_SIZE_LIMIT,
};

verus! {

/// Whether `r` and `after` are what an integer operation with the exact
/// result `v` gives on a heap that held `before`: the small integer `v`
/// where it fits, else a pointer to a new bignum at the end of the heap, or
/// `HeapOutOfMemory` where the bignum does not fit.
pub open spec fn gives_integer(v: int, before: Heap, r: Result<Term, RtErr>, after: Heap) -> bool {
    &&& after.limit() == before.limit()
    &&& if small_fits_spec(v) {
        &&& r matches Ok(t)
        &&& t@ == TermKind::Small(v)
        &&& t.value == word_of_kind(TermKind::Small(v))
        &&& after@ == before@
    } else if block_fits(before, integer_image(v).len()) {
        &&& r matches Ok(t)
        &&& t@ == TermKind::Boxed(before@.len())
        &&& t.value == word_of_kind(TermKind::Boxed(before@.len()))
        &&& after@ == before@ + integer_image(v)
        &&& bignum_at(after@, before@.len() as int)
    } else {
        &&& r == Err::<Term, RtErr>(RtErr::HeapOutOfMemory)
        &&& after@ == before@
    }
}

/// The boundary between small integers and bignums: an integer operation
/// gives a small integer exactly where its result is in the small range,
/// and a pointer to a bignum exactly where it is not and the heap has room.
pub proof fn lemma_small_or_big(v: int, before: Heap, r: Result<Term, RtErr>, after: Heap)
    requires
        gives_integer(v, before, r, after),
    ensures
        (r matches Ok(t) && t@ == TermKind::Small(v)) <==> small_fits_spec(v),
        (r matches Ok(t) && t@ is Boxed) <==> !small_fits_spec(v) && block_fits(
            before,
            integer_image(v).len(),
        ),
        r is Err <==> !small_fits_spec(v) && !block_fits(before, integer_image(v).len()),
{
}

/// Multiplication by one: the product of a small integer and one is that
/// small integer, and the heap stays as it is.
pub proof fn lemma_times_one(i: int, before: Heap, r: Result<Term, RtErr>, after: Heap)
    requires
        small_fits_spec(i),
        gives_integer(i * 1, before, r, after),
    ensures
        r matches Ok(t) && t@ == TermKind::Small(i),
        after@ == before@,
{
}

/// The integer that a term stands for: the value of a small integer, or
/// of the bignum on the heap that the term points to.
pub open spec fn integer_of(words: Seq<u64>, t: Term) -> Option<int> {
    if t@ is Small {
        Some(t@->Small_0)
    } else if t@ is Boxed && bignum_at(words, t@->Boxed_0 as int) {
        Some(
            if bignum_size_at(words, t@->Boxed_0 as int) < 0 {
                -(limbs_value(bignum_digits_at(words, t@->Boxed_0 as int)) as int)
            } else {
                limbs_value(bignum_digits_at(words, t@->Boxed_0 as int)) as int
            },
        )
    } else {
        None
    }
}

/// What an integer operation writes stands for its result: the bignum of
/// `v` at the end of a heap is a bignum, and the integer that the pointer to
/// it stands for is `v`.
pub proof fn lemma_integer_image(words: Seq<u64>, v: int)
    requires
        words.len() + integer_image(v).len() < HEADER_SIZE_LIMIT,
    ensures
        integer_of(
            words + integer_image(v),
            Term { value: word_of_kind(TermKind::Boxed(words.len())) },
        ) == Some(v),
{
    let limbs = if v < 0 {
        magnitude_limbs((-v) as nat)
    } else {
        magnitude_limbs(v as nat)
    };
    let sign = if v < 0 {
        Sign::Negative
    } else {
        Sign::Positive
    };
    let n = limbs.len();
    let p = words.len() as int;
    let all = words + integer_image(v);
    let t = Term { value: word_of_kind(TermKind::Boxed(words.len())) };
    lemma_magnitude_limbs_value(
        if v < 0 {
            (-v) as nat
        } else {
            v as nat
        },
    );
    assert(integer_image(v) == bignum_image(sign, limbs));
    assert(integer_image(v).len() == n + 2);
    let header = all[p];
    assert(header == header_word(BOXTYPETAG_BIGINTEGER, (n + 2) as u64));
    let size = (n + 2) as u64;
    assert(header == (size * 16 + 1) * 4);
    assert(header % 4 == 0);
    assert(header / 4 == size * 16 + 1);
    assert((header / 4) % 16 == 1);
    assert(header / 64 == size);
    assert(t.value == p * 4 + 2);
    assert(t.value % 4 == 2);
    assert(t.value / 4 == p);
    assert(all[p + 1] == count_word(sign, n));
    assert(bignum_digits_at(all, p) =~= limbs);
    if v < 0 {
        assert(n > 0) by {
            if n == 0 {
                assert(limbs_value(limbs) == 0);
            }
        }
    }
}

/// What a product is: one of the operands itself, or a new integer.
pub enum Product {
    Same(Term),
    Value(int),
}

/// The product of two terms on a heap: a factor of one leaves the other
/// operand as it is, and any other product is a new integer.  `None` where
/// an operand is no integer.
pub open spec fn product_of(words: Seq<u64>, x: Term, y: Term) -> Option<Product> {
    if integer_of(words, x) is None || integer_of(words, y) is None {
        None
    } else if x@ == TermKind::Small(1) {
        Some(Product::Same(y))
    } else if y@ == TermKind::Small(1) {
        Some(Product::Same(x))
    } else {
        Some(Product::Value(integer_of(words, x)->Some_0 * integer_of(words, y)->Some_0))
    }
}

/// Reads the integer that a term stands for.
pub fn read_integer(hp: &Heap, t: Term) -> (r: Option<Number>)
    ensures
        match integer_of(hp@, t) {
            Some(v) => r matches Some(n) && n.value() == v,
            None => r.is_none(),
        },
{
    if t.is_small() {
        let v: i64 = t.get_small_signed();
        let mut n = Number::from_u64(magnitude(v));
        n.negative = v < 0;
        return Some(n);
    }
    match Bignum::const_from_term(hp, t) {
        Ok(big) => Some(Number { negative: big.size < 0, limbs: big.digits }),
        Err(e) => None,
    }
}

/// The term of a number: a small integer where it fits, else a bignum on
/// the heap.
pub fn number_term(hp: &mut Heap, n: &Number) -> (r: Result<Term, RtErr>)
    requires
        n.wf(),
    ensures
        gives_integer(n.value(), *old(hp), r, *final(hp)),
{
    match n.to_small() {
        Some(i) => Ok(Term::make_small_signed(i)),
        None => {
            let sign = if n.negative {
                Sign::Negative
            } else {
                Sign::Positive
            };
            proof {
                lemma_canonical_unique(n.limbs@);
                lemma_short_limbs(n.limbs@);
            }
            match Bignum::create_into(hp, sign, n.limbs.as_slice()) {
                Ok(p) => Ok(Term::make_boxed(p as u64)),
                Err(e) => Err(RtErr::HeapOutOfMemory),
            }
        },
    }
}

/// The product of two terms, each a small integer or a bignum on the heap.
///
/// The product with one is the other operand itself.  Any other product is
/// exact: a small integer where it fits, else a new bignum on the heap.  An
/// operand that is no integer raises `badarith`.
pub fn multiply(hp: &mut Heap, x: Term, y: Term) -> (r: Result<Term, RtErr>)
    ensures
        match product_of(old(hp)@, x, y) {
            Some(Product::Same(t)) => r == Ok::<Term, RtErr>(t) && *final(hp) == *old(hp),
            Some(Product::Value(v)) => gives_integer(v, *old(hp), r, *final(hp)),
            None => r == badarith::<Term>() && *final(hp) == *old(hp),
        },
{
    if x.is_small() && y.is_small() {
        let a: i64 = x.get_small_signed();
        let b: i64 = y.get_small_signed();
        if a == 0 || b == 0 {
            assert(a * b == 0) by (nonlinear_arith)
                requires
                    a == 0 || b == 0,
            ;
            return Ok(Term::small_0());
        } else if a == 1 {
            proof {
                lemma_word_of_kind(x);
            }
            return Ok(y);
        } else if b == 1 {
            return Ok(x);
        }
        return multiply_two_small(hp, a, b);
    }
    let left: Number = match read_integer(hp, x) {
        Some(n) => n,
        None => {
            return Err(RtErr::Exception(ExceptionClass::Error, ExceptionReason::Badarith));
        },
    };
    let right: Number = match read_integer(hp, y) {
        Some(n) => n,
        None => {
            return Err(RtErr::Exception(ExceptionClass::Error, ExceptionReason::Badarith));
        },
    };
    if x.is_small() && x.get_small_signed() == 1 {
        return Ok(y);
    }
    if y.is_small() && y.get_small_signed() == 1 {
        return Ok(x);
    }
    let limbs: Vec<u64> = mul_limbs(left.limbs.as_slice(), right.limbs.as_slice());
    let negative: bool = left.negative != right.negative && limbs.len() > 0;
    let product = Number { negative, limbs };
    proof {
        let va = limbs_value(left.limbs@) as int;
        let vb = limbs_value(right.limbs@) as int;
        lemma_short_limbs(product.limbs@);
        lemma_canonical_unique(product.limbs@);
        assert((-va) * vb == -(va * vb)) by (nonlinear_arith);
        assert(va * (-vb) == -(va * vb)) by (nonlinear_arith);
        assert((-va) * (-vb) == va * vb) by (nonlinear_arith);
    }
    number_term(hp, &product)
}

/// The product of two signed integers, as a small integer or a bignum.
pub fn multiply_two_small(hp: &mut Heap, x: i64, y: i64) -> (r: Result<Term, RtErr>)
    ensures
        gives_integer(x * y, *old(hp), r, *final(hp)),
{
    assert(-0x4000_0000_0000_0000_0000_0000_0000_0000 <= x * y
        <= 0x4000_0000_0000_0000_0000_0000_0000_0000) by (nonlinear_arith)
        requires
            -0x8000_0000_0000_0000 <= x <= 0x7fff_ffff_ffff_ffff,
            -0x8000_0000_0000_0000 <= y <= 0x7fff_ffff_ffff_ffff,
    ;
    integer_term(hp, (x as i128) * (y as i128))
}

/// The term of an integer: a small integer where it fits, else a bignum on
/// the heap.
pub fn integer_term(hp: &mut Heap, v: i128) -> (r: Result<Term, RtErr>)
    requires
        -0x4000_0000_0000_0000_0000_0000_0000_0000 <= v
            <= 0x4000_0000_0000_0000_0000_0000_0000_0000,
    ensures
        gives_integer(v as int, *old(hp), r, *final(hp)),
{
    if v >= -0x0800_0000_0000_0000 && v <= 0x07ff_ffff_ffff_ffff {
        return Ok(Term::make_small_signed(v as i64));
    }
    let negative: bool = v < 0;
    let magnitude: u128 = if negative {
        (-v) as u128
    } else {
        v as u128
    };
    let low: u64 = (magnitude % 0x1_0000_0000_0000_0000) as u64;
    let high: u64 = (magnitude / 0x1_0000_0000_0000_0000) as u64;
    let mut limbs: Vec<u64> = Vec::new();
    limbs.push(low);
    if high != 0 {
        limbs.push(high);
    }
    proof {
        let m = magnitude as nat;
        let rest = m / 0x1_0000_0000_0000_0000;
        assert(magnitude_limbs(0) =~= Seq::<u64>::empty());
        if rest != 0 {
            assert(rest / 0x1_0000_0000_0000_0000 == 0);
            assert(rest % 0x1_0000_0000_0000_0000 == rest);
            assert(magnitude_limbs(rest) =~= seq![high]);
        }
        assert(limbs@ =~= magnitude_limbs(m));
    }
    let sign = if negative {
        Sign::Negative
    } else {
        Sign::Positive
    };
    match Bignum::create_into(hp, sign, limbs.as_slice()) {
        Ok(p) => Ok(Term::make_boxed(p as u64)),
        Err(e) => Err(RtErr::HeapOutOfMemory),
    }
}

/// The quotient of `a` by `b`, rounded towards zero.
pub open spec fn quotient(a: int, b: int) -> int
    recommends
        b != 0,
{
    if (a >= 0) == (b > 0) {
        abs(a) / abs(b)
    } else {
        -(abs(a) / abs(b))
    }
}

/// What is left of `a` after the division by `b`: it has the sign of `a`.
pub open spec fn rest(a: int, b: int) -> int
    recommends
        b != 0,
{
    a - b * quotient(a, b)
}

/// The absolute value.
pub open spec fn abs(a: int) -> int {
    if a < 0 {
        -a
    } else {
        a
    }
}

/// The magnitude of a small integer.
fn magnitude(a: i64) -> (m: u64)
    requires
        small_fits_spec(a as int),
    ensures
        m == abs(a as int),
{
    if a < 0 {
        (0 - a) as u64
    } else {
        a as u64
    }
}

/// The `badarith` error.
pub open spec fn badarith<T>() -> Result<T, RtErr> {
    Err(RtErr::Exception(ExceptionClass::Error, ExceptionReason::Badarith))
}

/// The sum of two terms.  For two small integers it is their exact sum.  An
/// operand that is no small integer raises `badarith`.
pub fn plus(hp: &mut Heap, x: Term, y: Term) -> (r: Result<Term, RtErr>)
    ensures
        x@ is Small && y@ is Small ==> gives_integer(
            x@->Small_0 + y@->Small_0,
            *old(hp),
            r,
            *final(hp),
        ),
        !(x@ is Small && y@ is Small) ==> r == badarith::<Term>() && *final(hp) == *old(hp),
{
    if x.is_small() && y.is_small() {
        return integer_term(hp, x.get_small_signed() as i128 + y.get_small_signed() as i128);
    }
    Err(RtErr::Exception(ExceptionClass::Error, ExceptionReason::Badarith))
}

/// The difference of two terms.  For two small integers it is their exact
/// difference.  An operand that is no small integer raises `badarith`.
pub fn minus(hp: &mut Heap, x: Term, y: Term) -> (r: Result<Term, RtErr>)
    ensures
        x@ is Small && y@ is Small ==> gives_integer(
            x@->Small_0 - y@->Small_0,
            *old(hp),
            r,
            *final(hp),
        ),
        !(x@ is Small && y@ is Small) ==> r == badarith::<Term>() && *final(hp) == *old(hp),
{
    if x.is_small() && y.is_small() {
        return integer_term(hp, x.get_small_signed() as i128 - y.get_small_signed() as i128);
    }
    Err(RtErr::Exception(ExceptionClass::Error, ExceptionReason::Badarith))
}

/// The quotient of two terms, rounded towards zero.  An operand that is no
/// small integer raises `badarith`, and so does a divisor of zero.
pub fn divide(hp: &mut Heap, x: Term, y: Term) -> (r: Result<Term, RtErr>)
    ensures
        x@ is Small && y@ is Small && y@->Small_0 != 0 ==> gives_integer(
            quotient(x@->Small_0, y@->Small_0),
            *old(hp),
            r,
            *final(hp),
        ),
        !(x@ is Small && y@ is Small && y@->Small_0 != 0) ==> r == badarith::<Term>() && *final(hp)
            == *old(hp),
{
    if x.is_small() && y.is_small() {
        let a: i64 = x.get_small_signed();
        let b: i64 = y.get_small_signed();
        if b != 0 {
            let q: u64 = magnitude(a) / magnitude(b);
            let v: i128 = if (a >= 0) == (b > 0) {
                q as i128
            } else {
                -(q as i128)
            };
            return integer_term(hp, v);
        }
    }
    Err(RtErr::Exception(ExceptionClass::Error, ExceptionReason::Badarith))
}

/// What is left after the division of two terms; it has the sign of the
/// dividend.  An operand that is no small integer raises `badarith`, and
/// so does a divisor of zero.
pub fn remainder(hp: &mut Heap, x: Term, y: Term) -> (r: Result<Term, RtErr>)
    ensures
        x@ is Small && y@ is Small && y@->Small_0 != 0 ==> gives_integer(
            rest(x@->Small_0, y@->Small_0),
            *old(hp),
            r,
            *final(hp),
        ),
        !(x@ is Small && y@ is Small && y@->Small_0 != 0) ==> r == badarith::<Term>() && *final(hp)
            == *old(hp),
{
    if x.is_small() && y.is_small() {
        let a: i64 = x.get_small_signed();
        let b: i64 = y.get_small_signed();
        if b != 0 {
            let m: u64 = magnitude(a) % magnitude(b);
            let ghost q = abs(a as int) / abs(b as int);
            proof {
                vstd::arithmetic::div_mod::lemma_fundamental_div_mod(abs(a as int), abs(b as int));
                assert(abs(b as int) * q == -(abs(b as int)) * (-q)) by (nonlinear_arith);
                assert((-abs(b as int)) * q == -(abs(b as int) * q)) by (nonlinear_arith);
                assert(abs(b as int) * (-q) == -(abs(b as int) * q)) by (nonlinear_arith);
            }
            let v: i128 = if a >= 0 {
                m as i128
            } else {
                -(m as i128)
            };
            return integer_term(hp, v);
        }
    }
    Err(RtErr::Exception(ExceptionClass::Error, ExceptionReason::Badarith))
}

} // verus!
