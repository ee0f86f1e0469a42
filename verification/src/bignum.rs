//! Big integers: sign and magnitude, the magnitude as 64-bit limbs with the
//! least significant first.
//!
//! On a heap a bignum is a block of `2 + n` words: the header, the signed
//! limb count (negative for a negative number), and the `n` limbs.
use vstd::prelude::*;
use crate::boxed::{
    alloc_block, block_at, block_fits, block_size, boxed_of_type, header_word,
    BOXTYPETAG_BIGINTEGER,
};
use crate::fail::RtErr;
use crate::heap::Heap;
use crate::term::Term;

verus! {

/// Bytes in one limb.
pub const BIG_DIGIT_SIZE: usize = 8;

#[derive(Clone, Copy, Debug, PartialEq, Eq, Structural)]
pub enum Sign {
    Positive,
    Negative,
}

/// The signed number that a word holds in two's complement.
pub open spec fn signed_of_word(w: u64) -> int {
    if w >= 0x8000_0000_0000_0000 {
        w - 0x1_0000_0000_0000_0000
    } else {
        w as int
    }
}

/// The limb count as it is stored: `n`, or `-n` for a negative number.
pub open spec fn signed_count(sign: Sign, n: nat) -> int {
    if sign == Sign::Negative {
        -(n as int)
    } else {
        n as int
    }
}

/// The word that holds the limb count.
pub open spec fn count_word(sign: Sign, n: nat) -> u64 {
    if sign == Sign::Negative && n > 0 {
        (0x1_0000_0000_0000_0000 - n) as u64
    } else {
        n as u64
    }
}

/// The number that limbs stand for, least significant limb first.
pub open spec fn limbs_value(limbs: Seq<u64>) -> nat
    decreases limbs.len(),
{
    if limbs.len() == 0 {
        0
    } else {
        limbs[0] as nat + 0x1_0000_0000_0000_0000 * limbs_value(limbs.drop_first())
    }
}

/// The words of a bignum on a heap.
pub open spec fn bignum_image(sign: Sign, limbs: Seq<u64>) -> Seq<u64> {
    seq![
        header_word(BOXTYPETAG_BIGINTEGER, (limbs.len() + 2) as u64),
        count_word(sign, limbs.len()),
    ] + limbs
}

/// Whether a bignum begins at offset `p`.
pub open spec fn bignum_at(words: Seq<u64>, p: int) -> bool {
    &&& block_at(words, p, BOXTYPETAG_BIGINTEGER)
    &&& block_size(words, p) >= 2
    &&& bignum_size_at(words, p) == block_size(words, p) - 2 || bignum_size_at(words, p) == 2
        - block_size(words, p)
}

/// The signed limb count of the bignum at `p`.
pub open spec fn bignum_size_at(words: Seq<u64>, p: int) -> int {
    signed_of_word(words[p + 1])
}

/// The limbs of the bignum at `p`.
pub open spec fn bignum_digits_at(words: Seq<u64>, p: int) -> Seq<u64> {
    words.subrange(p + 2, p + block_size(words, p))
}

/// A big integer.
#[derive(Debug)]
pub struct Bignum {
    /// The number of limbs; negative when the number is negative.
    pub size: i64,
    /// The limbs, least significant first.
    pub digits: Vec<u64>,
}

impl Bignum {
    /// The limb count agrees with the limbs.
    pub open spec fn wf(&self) -> bool {
        self.size == self.digits@.len() || self.size == -self.digits@.len()
    }

    /// The integer that the bignum stands for.
    pub open spec fn value(&self) -> int {
        if self.size < 0 {
            -(limbs_value(self.digits@) as int)
        } else {
            limbs_value(self.digits@) as int
        }
    }

    /// Words that a bignum of `n_digits` limbs takes on a heap.
    pub fn storage_size(n_digits: usize) -> (n: usize)
        requires
            n_digits + 2 <= usize::MAX,
        ensures
            n == n_digits + 2,
    {
        n_digits + 2
    }

    /// Writes the bignum `val` into the heap, with one limb, and returns its
    /// offset.  Fails exactly when three words do not fit.
    pub fn with_isize(hp: &mut Heap, val: i64) -> (r: Result<usize, RtErr>)
        ensures
            final(hp).limit() == old(hp).limit(),
            block_fits(*old(hp), 3) ==> {
                &&& r matches Ok(p)
                &&& p == old(hp)@.len()
                &&& final(hp)@ == old(hp)@ + bignum_image(
                    if val < 0 {
                        Sign::Negative
                    } else {
                        Sign::Positive
                    },
                    seq![
                        (if val < 0 {
                            -val
                        } else {
                            val as int
                        }) as u64,
                    ],
                )
                &&& bignum_at(final(hp)@, p as int)
            },
            !block_fits(*old(hp), 3) ==> {
                &&& r == Err::<usize, RtErr>(RtErr::HeapOutOfMemory)
                &&& final(hp)@ == old(hp)@
            },
    {
        let mut limbs: Vec<u64> = Vec::new();
        if val < 0 {
            limbs.push(((-(val + 1)) as u64) + 1);
            Self::create_into(hp, Sign::Negative, limbs.as_slice())
        } else {
            limbs.push(val as u64);
            Self::create_into(hp, Sign::Positive, limbs.as_slice())
        }
    }

    /// Writes a bignum into the heap and returns its offset.  The limbs are
    /// copied.  Fails, and changes nothing, exactly when the block of
    /// `2 + n` words does not fit.
    pub fn create_into(hp: &mut Heap, sign: Sign, limbs: &[u64]) -> (r: Result<usize, RtErr>)
        ensures
            final(hp).limit() == old(hp).limit(),
            block_fits(*old(hp), limbs@.len() + 2) ==> {
                &&& r matches Ok(p)
                &&& p == old(hp)@.len()
                &&& final(hp)@ == old(hp)@ + bignum_image(sign, limbs@)
                &&& bignum_at(final(hp)@, p as int)
                &&& bignum_size_at(final(hp)@, p as int) == signed_count(sign, limbs@.len())
                &&& bignum_digits_at(final(hp)@, p as int) == limbs@
            },
            !block_fits(*old(hp), limbs@.len() + 2) ==> {
                &&& r == Err::<usize, RtErr>(RtErr::HeapOutOfMemory)
                &&& final(hp)@ == old(hp)@
            },
    {
        let n: usize = limbs.len();
        let room: usize = hp.remaining();
        if room < 2 || n > room - 2 {
            return Err(RtErr::HeapOutOfMemory);
        }
        let ghost before = hp@;
        let p: usize = match alloc_block(hp, BOXTYPETAG_BIGINTEGER, n + 2) {
            Ok(p) => p,
            Err(e) => {
                return Err(RtErr::HeapOutOfMemory);
            },
        };
        proof {
            hp.lemma_len_bound();
        }
        let count: u64 = if sign == Sign::Negative && n > 0 {
            (u64::MAX - n as u64) + 1
        } else {
            n as u64
        };
        hp.set(p + 1, count);
        let ghost header = header_word(BOXTYPETAG_BIGINTEGER, (n + 2) as u64);
        let mut i: usize = 0;
        while i < n
            invariant
                i <= n,
                n == limbs@.len(),
                p == before.len(),
                hp@.len() == p + n + 2 <= usize::MAX,
                hp.limit() == old(hp).limit(),
                hp@.subrange(0, p as int) == before,
                hp@[p as int] == header,
                hp@[p + 1] == count,
                forall|k: int| 0 <= k < i ==> hp@[p + 2 + k] == limbs@[k],
            decreases n - i,
        {
            hp.set(p + 2 + i, limbs[i]);
            i += 1;
            proof {
                hp.lemma_len_bound();
            }
        }
        proof {
            let image = bignum_image(sign, limbs@);
            assert(hp@ =~= before + image) by {
                assert forall|k: int| 0 <= k < hp@.len() implies hp@[k] == (before + image)[k] by {
                    if k < p {
                        assert(hp@.subrange(0, p as int)[k] == hp@[k]);
                    }
                }
            }
            assert(bignum_digits_at(hp@, p as int) =~= limbs@);
        }
        Ok(p)
    }

    /// The limbs, least significant first.
    pub fn get_digits(&self) -> (r: &[u64])
        ensures
            r@ == self.digits@,
    {
        self.digits.as_slice()
    }

    pub fn is_negative(&self) -> (b: bool)
        ensures
            b == (self.size < 0),
    {
        self.size < 0
    }

    /// How many limbs are stored: the absolute value of `size`.
    pub fn get_size(&self) -> (n: usize)
        requires
            self.wf(),
        ensures
            n == self.digits@.len(),
    {
        self.digits.len()
    }

    /// How many bytes the limbs take: a multiple of the limb size.
    pub fn get_byte_size(&self) -> (n: usize)
        requires
            self.wf(),
            self.digits@.len() * 8 <= usize::MAX,
        ensures
            n == self.digits@.len() * 8,
    {
        self.get_size() * BIG_DIGIT_SIZE
    }

    /// The offset of the bignum that `t` points to, for writing to it
    /// through the heap.  Fails exactly when `t` is no pointer to a bignum
    /// on this heap.
    pub fn mut_from_term(hp: &Heap, t: Term) -> (r: Result<usize, RtErr>)
        ensures
            t@ is Boxed && bignum_at(hp@, t@->Boxed_0 as int) ==> {
                &&& r matches Ok(p)
                &&& p == t@->Boxed_0
            },
            !(t@ is Boxed && bignum_at(hp@, t@->Boxed_0 as int)) ==> r == Err::<usize, RtErr>(
                RtErr::BoxedIsNotABigint,
            ),
    {
        match Self::const_from_term(hp, t) {
            Ok(big) => match boxed_of_type(hp, t, BOXTYPETAG_BIGINTEGER) {
                Some(p) => Ok(p),
                None => Err(RtErr::BoxedIsNotABigint),
            },
            Err(e) => Err(RtErr::BoxedIsNotABigint),
        }
    }

    /// Reads the bignum that `t` points to.  Fails exactly when `t` is no
    /// pointer to a bignum on this heap.
    pub fn const_from_term(hp: &Heap, t: Term) -> (r: Result<Bignum, RtErr>)
        ensures
            t@ is Boxed && bignum_at(hp@, t@->Boxed_0 as int) ==> {
                &&& r matches Ok(big)
                &&& big.wf()
                &&& big.size == bignum_size_at(hp@, t@->Boxed_0 as int)
                &&& big.digits@ == bignum_digits_at(hp@, t@->Boxed_0 as int)
            },
            !(t@ is Boxed && bignum_at(hp@, t@->Boxed_0 as int)) ==> r == Err::<Bignum, RtErr>(
                RtErr::BoxedIsNotABigint,
            ),
    {
        let p: usize = match boxed_of_type(hp, t, BOXTYPETAG_BIGINTEGER) {
            Some(p) => p,
            None => {
                return Err(RtErr::BoxedIsNotABigint);
            },
        };
        proof {
            hp.lemma_len_bound();
        }
        let total: u64 = Term::from_raw(hp.get(p)).header_size();
        if total < 2 {
            return Err(RtErr::BoxedIsNotABigint);
        }
        let n: usize = (total - 2) as usize;
        let count: u64 = hp.get(p + 1);
        let size: i64 = if count >= 0x8000_0000_0000_0000 {
            ((count - 0x8000_0000_0000_0000) as i64) + i64::MIN
        } else {
            count as i64
        };
        if !(size == n as i64 || (size < 0 && size != i64::MIN && -size == n as i64)) {
            return Err(RtErr::BoxedIsNotABigint);
        }
        let mut digits: Vec<u64> = Vec::new();
        let mut i: usize = 0;
        while i < n
            invariant
                i <= n,
                p + 2 + n <= hp@.len() <= usize::MAX,
                digits@ == hp@.subrange(p + 2, p + 2 + i),
            decreases n - i,
        {
            digits.push(hp.get(p + 2 + i));
            i += 1;
            assert(digits@ =~= hp@.subrange(p + 2, p + 2 + i));
        }
        Ok(Bignum { size, digits })
    }
}

} // verus!
