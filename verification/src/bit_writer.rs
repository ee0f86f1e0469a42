//! Writing integers into a byte buffer at a bit offset.
//!
//! Bits are counted from the most significant bit of the first byte.  The
//! writer writes a field of a small integer that lies within one byte.  A
//! wider field, or the field of a bignum, belongs to the bit syntax, which
//! is not part of this core: the writer refuses it.
use vstd::prelude::*;
use crate::fail::{ExceptionClass, ExceptionReason, RtErr};
use crate::term::{Term, TermKind};

verus! {

/// A size or an offset in bits.
#[derive(Clone, Copy, Debug, PartialEq, Eq, Structural)]
pub struct BitSize {
    pub bit_count: usize,
}

/// How a field of the bit syntax is written.
#[derive(Clone, Copy, Debug, PartialEq, Eq, Structural)]
pub struct BsFlags {
    /// The least significant byte comes first.
    pub little: bool,
    /// The value is signed.
    pub signed: bool,
}

/// `2^n` for the bit counts within a byte.
pub open spec fn pow2_spec(n: int) -> int {
    if n <= 0 {
        1
    } else if n == 1 {
        2
    } else if n == 2 {
        4
    } else if n == 3 {
        8
    } else if n == 4 {
        16
    } else if n == 5 {
        32
    } else if n == 6 {
        64
    } else if n == 7 {
        128
    } else {
        256
    }
}

/// `2^n` for the bit counts within a byte.
pub fn pow2(n: usize) -> (p: u64)
    requires
        n <= 8,
    ensures
        p == pow2_spec(n as int),
        1 <= p <= 256,
{
    if n == 0 {
        1
    } else if n == 1 {
        2
    } else if n == 2 {
        4
    } else if n == 3 {
        8
    } else if n == 4 {
        16
    } else if n == 5 {
        32
    } else if n == 6 {
        64
    } else if n == 7 {
        128
    } else {
        256
    }
}

/// The byte after a field of `size` bits was written into it behind its
/// first `offset` bits: the first `offset` bits stay, the field holds the
/// low `size` bits of `bits`, and the bits behind the field are zero.
pub open spec fn byte_with_field(old_byte: u8, offset: int, size: int, bits: u64) -> int {
    (old_byte as int / pow2_spec(8 - offset)) * pow2_spec(8 - offset) + (bits as int % pow2_spec(
        size,
    )) * pow2_spec(8 - offset - size)
}

/// Whether a field of `size` bits at bit `offset` lies within one byte of a
/// buffer of `len` bytes, without reaching the end of that byte.
pub open spec fn within_one_byte(len: nat, offset: usize, size: usize) -> bool {
    &&& 0 < size
    &&& offset % 8 + size < 8
    &&& offset / 8 < len
}

pub struct BitWriter {}

impl BitWriter {
    /// Writes the low `write_size` bits of a small integer into `dst` at the
    /// bit `dst_offset`.  A field of no bits writes nothing.  A field that
    /// begins behind the buffer raises `badarg`.  A field that is not
    /// that of a small integer, or that reaches the end of its byte, raises
    /// `system_limit`.  A field that is refused leaves the buffer as it is.
    pub fn put_integer(
        write_val: Term,
        write_size: BitSize,
        dst: &mut Vec<u8>,
        dst_offset: BitSize,
        flags: BsFlags,
    ) -> (r: Result<(), RtErr>)
        ensures
            write_size.bit_count == 0 ==> r is Ok && final(dst)@ == old(dst)@,
            write_size.bit_count != 0 && dst_offset.bit_count / 8 >= old(dst)@.len() ==> r
                == Err::<(), RtErr>(
                RtErr::Exception(ExceptionClass::Error, ExceptionReason::Badarg),
            ) && final(dst)@ == old(dst)@,
            write_size.bit_count != 0 && dst_offset.bit_count / 8 < old(dst)@.len() && !(
            write_val@ is Small && dst_offset.bit_count % 8 + write_size.bit_count < 8) ==> r
                == Err::<(), RtErr>(
                RtErr::Exception(ExceptionClass::Error, ExceptionReason::SystemLimit),
            ) && final(dst)@ == old(dst)@,
            write_val@ is Small && within_one_byte(
                old(dst)@.len(),
                dst_offset.bit_count,
                write_size.bit_count,
            ) ==> r is Ok && final(dst)@ == old(dst)@.update(
                dst_offset.bit_count as int / 8,
                byte_with_field(
                    old(dst)@[dst_offset.bit_count as int / 8],
                    dst_offset.bit_count as int % 8,
                    write_size.bit_count as int,
                    write_val.value / 16,
                ) as u8,
            ),
    {
        if write_size.bit_count == 0 {
            return Ok(());
        }
        if dst_offset.bit_count / 8 >= dst.len() {
            return Err(RtErr::Exception(ExceptionClass::Error, ExceptionReason::Badarg));
        }
        let inbyte_offset: usize = dst_offset.bit_count % 8;
        if !write_val.is_small() || write_size.bit_count >= 8 - inbyte_offset {
            return Err(RtErr::Exception(ExceptionClass::Error, ExceptionReason::SystemLimit));
        }
        let rbits: usize = 8 - inbyte_offset;
        Self::put_bits_one_byte(
            dst,
            dst_offset.bit_count / 8,
            rbits,
            inbyte_offset,
            write_val.raw() / 16,
            write_size,
        )
    }

    /// Writes a field that lies within the byte at `at`.
    fn put_bits_one_byte(
        dst: &mut Vec<u8>,
        at: usize,
        rbits: usize,
        inbyte_offset: usize,
        write_val: u64,
        write_size: BitSize,
    ) -> (r: Result<(), RtErr>)
        requires
            at < old(dst)@.len(),
            rbits == 8 - inbyte_offset,
            0 < write_size.bit_count,
            inbyte_offset + write_size.bit_count < 8,
        ensures
            r is Ok,
            final(dst)@ == old(dst)@.update(
                at as int,
                byte_with_field(
                    old(dst)@[at as int],
                    inbyte_offset as int,
                    write_size.bit_count as int,
                    write_val,
                ) as u8,
            ),
    {
        let keep: u64 = (dst[at] as u64 / pow2(rbits)) * pow2(rbits);
        let field: u64 = (write_val % pow2(write_size.bit_count)) * pow2(
            8 - inbyte_offset - write_size.bit_count,
        );
        proof {
            lemma_field_fits(
                dst@[at as int],
                inbyte_offset as int,
                write_size.bit_count as int,
                write_val,
            );
        }
        dst[at] = (keep + field) as u8;
        Ok(())
    }
}

/// A byte with a field written into it is a byte.
pub proof fn lemma_field_fits(old_byte: u8, offset: int, size: int, bits: u64)
    requires
        0 <= offset,
        0 < size,
        offset + size < 8,
    ensures
        0 <= byte_with_field(old_byte, offset, size, bits) < 256,
        (old_byte as int / pow2_spec(8 - offset)) * pow2_spec(8 - offset) <= old_byte,
        (bits as int % pow2_spec(size)) * pow2_spec(8 - offset - size) < pow2_spec(8 - offset),
{
    let r = pow2_spec(8 - offset);
    let s = pow2_spec(size);
    let t = pow2_spec(8 - offset - size);
    assert(s * t == r);
    let keep = (old_byte as int / r) * r;
    let low = bits as int % s;
    assert(keep <= old_byte) by (nonlinear_arith)
        requires
            keep == (old_byte as int / r) * r,
            r > 0,
            old_byte >= 0,
    ;
    assert(low * t <= (s - 1) * t) by (nonlinear_arith)
        requires
            0 <= low <= s - 1,
            t > 0,
    ;
    assert((s - 1) * t == s * t - t) by (nonlinear_arith);
    assert(keep + r <= 256) by (nonlinear_arith)
        requires
            keep == (old_byte as int / r) * r,
            0 <= old_byte < 256,
            r == 2 || r == 4 || r == 8 || r == 16 || r == 32 || r == 64 || r == 128 || r == 256,
    ;
}

} // verus!
