//! Writing operands in the compact-term encoding, and the law that what is
//! written is read back.
use vstd::prelude::*;
use crate::bin_reader::be_value;
use crate::compact_term::{
    literal_value, multi_value, operand, plain_value, sized_value, Decoded, Scanned, EXT_FPREG,
    EXT_LITERAL, TAG_ATOM, TAG_EXTENDED, TAG_INTEGER, TAG_LABEL, TAG_LITERAL, TAG_XREG, TAG_YREG,
};
use crate::number::{be_signed, lemma_be_value_bound, pow256};
use crate::term::{
    small_fits_spec, Term, TermKind, LOADTIME_LIMIT, SPECIAL_LT_ATOM, SPECIAL_LT_LABEL,
    SPECIAL_LT_LITERAL, SPECIAL_LT_REGFP, SPECIAL_LT_REGX, SPECIAL_LT_REGY,
};

verus! {

/// The `n` low bytes of `u`, most significant first.
pub open spec fn be_bytes(u: nat, n: nat) -> Seq<u8>
    decreases n,
{
    if n == 0 {
        Seq::<u8>::empty()
    } else {
        be_bytes(u / 256, (n - 1) as nat).push((u % 256) as u8)
    }
}

/// The number of bytes that hold `v` in two's complement, two at least.
pub open spec fn byte_count(v: int) -> nat {
    if -0x8000 <= v < 0x8000 {
        2
    } else if -0x80_0000 <= v < 0x80_0000 {
        3
    } else if -0x8000_0000 <= v < 0x8000_0000 {
        4
    } else if -0x80_0000_0000 <= v < 0x80_0000_0000 {
        5
    } else if -0x8000_0000_0000 <= v < 0x8000_0000_0000 {
        6
    } else if -0x80_0000_0000_0000 <= v < 0x80_0000_0000_0000 {
        7
    } else {
        8
    }
}

/// What stands for `v` in `n` bytes of two's complement.
pub open spec fn twos_complement(v: int, n: nat) -> nat {
    if v < 0 {
        (v + pow256(n)) as nat
    } else {
        v as nat
    }
}

/// The bytes of an operand with tag `tag` and value `v`, in the shortest
/// form that holds `v`.
pub open spec fn value_bytes(tag: u8, v: int) -> Seq<u8> {
    if 0 <= v < 16 {
        seq![(v * 16 + tag) as u8]
    } else if 16 <= v < 2048 {
        seq![((v / 256) * 32 + 8 + tag) as u8, (v % 256) as u8]
    } else {
        seq![((byte_count(v) - 2) * 32 + 24 + tag) as u8] + be_bytes(
            twos_complement(v, byte_count(v)),
            byte_count(v),
        )
    }
}

/// The bytes of a term, for the terms that an operand can stand for without
/// a heap: small integers, nil, and load-time terms.
pub open spec fn encoding(kind: TermKind) -> Option<Seq<u8>> {
    match kind {
        TermKind::Small(v) => if small_fits_spec(v) {
            Some(value_bytes(TAG_INTEGER, v))
        } else {
            None
        },
        TermKind::Nil => Some(value_bytes(TAG_ATOM, 0)),
        TermKind::Loadtime { tag, val } => if val >= LOADTIME_LIMIT {
            None
        } else if tag == SPECIAL_LT_ATOM && val > 0 {
            Some(value_bytes(TAG_ATOM, val as int))
        } else if tag == SPECIAL_LT_LABEL && val > 0 {
            Some(value_bytes(TAG_LABEL, val as int))
        } else if tag == SPECIAL_LT_REGX {
            Some(value_bytes(TAG_XREG, val as int))
        } else if tag == SPECIAL_LT_REGY {
            Some(value_bytes(TAG_YREG, val as int))
        } else if tag == SPECIAL_LT_LITERAL {
            Some(seq![TAG_EXTENDED, EXT_LITERAL] + value_bytes(TAG_LITERAL, val as int))
        } else if tag == SPECIAL_LT_REGFP {
            Some(seq![TAG_EXTENDED, EXT_FPREG] + value_bytes(TAG_LITERAL, val as int))
        } else {
            None
        },
        _ => None,
    }
}

/// The powers of 256 that fit in a word.
pub proof fn lemma_pow256_values()
    ensures
        pow256(0) == 1,
        pow256(1) == 0x100,
        pow256(2) == 0x1_0000,
        pow256(3) == 0x100_0000,
        pow256(4) == 0x1_0000_0000,
        pow256(5) == 0x100_0000_0000,
        pow256(6) == 0x1_0000_0000_0000,
        pow256(7) == 0x100_0000_0000_0000,
        pow256(8) == 0x1_0000_0000_0000_0000,
{
    reveal_with_fuel(pow256, 10);
}

/// `n` bytes hold every number below `256^n`.
pub proof fn lemma_be_bytes_value(u: nat, n: nat)
    requires
        u < pow256(n),
    ensures
        be_bytes(u, n).len() == n,
        be_value(be_bytes(u, n)) == u,
    decreases n,
{
    if n > 0 {
        lemma_be_bytes_value(u / 256, (n - 1) as nat);
        let front = be_bytes(u / 256, (n - 1) as nat);
        let all = be_bytes(u, n);
        assert(all.drop_last() =~= front);
        assert(all.last() == (u % 256) as u8);
    }
}

/// Two's complement is read back: the bytes of `v` in `n` bytes stand for
/// `v`, where `v` is within what `n` bytes hold.
pub proof fn lemma_twos_complement(v: int, n: nat)
    requires
        n >= 1,
        -(pow256((n - 1) as nat) * 128) <= v < pow256((n - 1) as nat) * 128,
    ensures
        twos_complement(v, n) < pow256(n),
        be_bytes(twos_complement(v, n), n).len() == n,
        be_signed(be_bytes(twos_complement(v, n), n)) == v,
        v >= 0 ==> be_value(be_bytes(twos_complement(v, n), n)) == v,
{
    let half = pow256((n - 1) as nat) * 128;
    let p = pow256((n - 1) as nat);
    assert(pow256(n) == 256 * p);
    let u = twos_complement(v, n);
    lemma_be_bytes_value(u, n);
    let bytes = be_bytes(u, n);
    lemma_be_value_bound(bytes);
    let lead = bytes[0] as int;
    if v < 0 {
        assert(u >= 128 * p);
        assert(lead >= 128) by (nonlinear_arith)
            requires
                (lead + 1) * p > 128 * p,
                p > 0,
        ;
    } else {
        assert(u < 128 * p);
        assert(lead < 128) by (nonlinear_arith)
            requires
                lead * p < 128 * p,
                p > 0,
        ;
    }
}

/// The one-byte form is read back.
proof fn lemma_form_one(tag: u8, v: int, bytes: Seq<u8>, pos: int, signed: bool)
    requires
        tag < 8,
        0 <= v < 16,
        0 <= pos < bytes.len(),
        bytes[pos] == v * 16 + tag,
    ensures
        bytes[pos] % 8 == tag,
        sized_value(bytes, pos, signed) == (Scanned::Done { value: v, next: pos + 1 }),
{
    reveal(plain_value);
    reveal(sized_value);
    let b = bytes[pos];
    assert(b / 16 == v);
    assert(b / 8 == 2 * v + tag / 8);
}

/// The two-byte form is read back.
proof fn lemma_form_two(tag: u8, v: int, bytes: Seq<u8>, pos: int, signed: bool)
    requires
        tag < 8,
        16 <= v < 2048,
        0 <= pos,
        pos + 1 < bytes.len(),
        bytes[pos] == (v / 256) * 32 + 8 + tag,
        bytes[pos + 1] == v % 256,
    ensures
        bytes[pos] % 8 == tag,
        sized_value(bytes, pos, signed) == (Scanned::Done { value: v, next: pos + 2 }),
{
    reveal(plain_value);
    reveal(sized_value);
    let b = bytes[pos];
    let k = v / 256;
    assert(b / 32 == k);
    assert(b / 16 == 2 * k);
    assert(b / 8 == 4 * k + 1);
}

/// The form with a byte count in the first byte is read back.
proof fn lemma_form_three(tag: u8, n: nat, bytes: Seq<u8>, pos: int, signed: bool)
    requires
        tag < 8,
        2 <= n <= 8,
        0 <= pos < bytes.len(),
        bytes[pos] == (n - 2) * 32 + 24 + tag,
    ensures
        bytes[pos] % 8 == tag,
        sized_value(bytes, pos, signed) == multi_value(bytes, pos + 1, n as int, signed),
{
    reveal(plain_value);
    reveal(sized_value);
    let b = bytes[pos];
    let k = n - 2;
    assert(b / 32 == k);
    assert(b / 16 == 2 * k + 1);
    assert(b / 8 == 4 * k + 3);
}

/// What `value_bytes` writes, `sized_value` reads back.
pub proof fn lemma_value_round_trip(tag: u8, v: int, bytes: Seq<u8>, pos: int, signed: bool)
    requires
        tag < 8,
        -0x8000_0000_0000_0000 <= v < 0x8000_0000_0000_0000,
        v < 0 ==> signed,
        0 <= pos,
        pos + value_bytes(tag, v).len() <= bytes.len(),
        bytes.subrange(pos, pos + value_bytes(tag, v).len()) == value_bytes(tag, v),
    ensures
        bytes[pos] % 8 == tag,
        sized_value(bytes, pos, signed) == (Scanned::Done {
            value: v,
            next: pos + value_bytes(tag, v).len(),
        }),
{
    let image = value_bytes(tag, v);
    assert(bytes[pos] == image[0]) by {
        assert(bytes.subrange(pos, pos + image.len())[0] == bytes[pos]);
    }
    if 0 <= v < 16 {
        lemma_form_one(tag, v, bytes, pos, signed);
    } else if 16 <= v < 2048 {
        assert(bytes[pos + 1] == image[1]) by {
            assert(bytes.subrange(pos, pos + image.len())[1] == bytes[pos + 1]);
        }
        lemma_form_two(tag, v, bytes, pos, signed);
    } else {
        let n = byte_count(v);
        lemma_pow256_values();
        lemma_twos_complement(v, n);
        let payload = be_bytes(twos_complement(v, n), n);
        assert(image.len() == 1 + n);
        assert(bytes.subrange(pos + 1, pos + 1 + n) =~= payload) by {
            assert forall|i: int| 0 <= i < n implies bytes.subrange(pos + 1, pos + 1 + n)[i]
                == payload[i] by {
                assert(bytes.subrange(pos, pos + image.len())[i + 1] == bytes[pos + 1 + i]);
                assert(image[i + 1] == payload[i]);
            }
        }
        lemma_form_three(tag, n, bytes, pos, signed);
    }
}

/// Decoding inverts encoding: where the bytes at `pos` are the encoding of a
/// term, decoding the operand at `pos` gives that term, ends behind those
/// bytes, and adds nothing to the heap.
pub proof fn lemma_round_trip(kind: TermKind, bytes: Seq<u8>, pos: int, used: nat, limit: nat)
    requires
        encoding(kind) is Some,
        0 <= pos,
        pos + encoding(kind)->Some_0.len() <= bytes.len(),
        bytes.subrange(pos, pos + encoding(kind)->Some_0.len()) == encoding(kind)->Some_0,
    ensures
        operand(bytes, pos, used, limit) == (Decoded::Done {
            kind,
            next: pos + encoding(kind)->Some_0.len(),
            added: Seq::<u64>::empty(),
        }),
{
    reveal(operand);
    let image = encoding(kind)->Some_0;
    match kind {
        TermKind::Small(v) => {
            lemma_value_round_trip(TAG_INTEGER, v, bytes, pos, true);
        },
        TermKind::Nil => {
            lemma_value_round_trip(TAG_ATOM, 0, bytes, pos, false);
        },
        TermKind::Loadtime { tag, val } => {
            if tag == SPECIAL_LT_LITERAL || tag == SPECIAL_LT_REGFP {
                let inner = value_bytes(TAG_LITERAL, val as int);
                assert(image.len() == 2 + inner.len());
                assert(bytes[pos] == image[0] && bytes[pos + 1] == image[1]) by {
                    assert(bytes.subrange(pos, pos + image.len())[0] == bytes[pos]);
                    assert(bytes.subrange(pos, pos + image.len())[1] == bytes[pos + 1]);
                }
                assert(bytes.subrange(pos + 2, pos + 2 + inner.len()) =~= inner) by {
                    assert forall|i: int| 0 <= i < inner.len() implies bytes.subrange(
                        pos + 2,
                        pos + 2 + inner.len(),
                    )[i] == inner[i] by {
                        assert(bytes.subrange(pos, pos + image.len())[i + 2] == bytes[pos + 2 + i]);
                        assert(image[i + 2] == inner[i]);
                    }
                }
                lemma_value_round_trip(TAG_LITERAL, val as int, bytes, pos + 2, false);
                assert(literal_value(bytes, pos + 2) == (Scanned::Done {
                    value: val as int,
                    next: pos + 2 + inner.len(),
                }));
            } else if tag == SPECIAL_LT_ATOM {
                lemma_value_round_trip(TAG_ATOM, val as int, bytes, pos, false);
            } else if tag == SPECIAL_LT_LABEL {
                lemma_value_round_trip(TAG_LABEL, val as int, bytes, pos, true);
            } else if tag == SPECIAL_LT_REGX {
                lemma_value_round_trip(TAG_XREG, val as int, bytes, pos, false);
            } else {
                lemma_value_round_trip(TAG_YREG, val as int, bytes, pos, false);
            }
        },
        _ => {},
    }
}

/// Appends the `n` low bytes of `u`, most significant first.
fn write_be(u: u64, n: usize, out: &mut Vec<u8>)
    ensures
        final(out)@ == old(out)@ + be_bytes(u as nat, n as nat),
    decreases n,
{
    if n > 0 {
        write_be(u / 256, n - 1, out);
        out.push((u % 256) as u8);
        assert(out@ =~= old(out)@ + be_bytes(u as nat, n as nat));
    } else {
        assert(out@ =~= old(out)@ + be_bytes(u as nat, n as nat));
    }
}

/// Appends an operand with tag `tag` and value `v`.
fn write_value(tag: u8, v: i64, out: &mut Vec<u8>)
    requires
        tag < 8,
    ensures
        final(out)@ == old(out)@ + value_bytes(tag, v as int),
{
    if 0 <= v && v < 16 {
        out.push((v as u8) * 16 + tag);
        assert(out@ =~= old(out)@ + value_bytes(tag, v as int));
    } else if 16 <= v && v < 2048 {
        out.push(((v / 256) as u8) * 32 + 8 + tag);
        out.push((v % 256) as u8);
        assert(out@ =~= old(out)@ + value_bytes(tag, v as int));
    } else {
        proof {
            lemma_pow256_values();
        }
        let (n, span): (usize, i128) = if -0x8000 <= v && v < 0x8000 {
            (2, 0x1_0000)
        } else if -0x80_0000 <= v && v < 0x80_0000 {
            (3, 0x100_0000)
        } else if -0x8000_0000 <= v && v < 0x8000_0000 {
            (4, 0x1_0000_0000)
        } else if -0x80_0000_0000 <= v && v < 0x80_0000_0000 {
            (5, 0x100_0000_0000)
        } else if -0x8000_0000_0000 <= v && v < 0x8000_0000_0000 {
            (6, 0x1_0000_0000_0000)
        } else if -0x80_0000_0000_0000 <= v && v < 0x80_0000_0000_0000 {
            (7, 0x100_0000_0000_0000)
        } else {
            (8, 0x1_0000_0000_0000_0000)
        };
        let u: u64 = if v < 0 {
            (v as i128 + span) as u64
        } else {
            v as u64
        };
        out.push(((n - 2) as u8) * 32 + 24 + tag);
        write_be(u, n, out);
        assert(out@ =~= old(out)@ + value_bytes(tag, v as int));
    }
}

/// Appends the encoding of `t`, if it has one.  Returns whether it has, and
/// otherwise appends nothing.
pub fn write(t: Term, out: &mut Vec<u8>) -> (written: bool)
    ensures
        written == encoding(t@) is Some,
        written ==> final(out)@ == old(out)@ + encoding(t@)->Some_0,
        !written ==> final(out)@ == old(out)@,
{
    if t.is_small() {
        write_value(TAG_INTEGER, t.get_small_signed(), out);
        true
    } else if t.is_nil() {
        write_value(TAG_ATOM, 0, out);
        true
    } else if t.is_loadtime() {
        let tag: u64 = t.get_loadtime_tag();
        let val: i64 = t.get_loadtime_val() as i64;
        if tag == SPECIAL_LT_ATOM {
            if val == 0 {
                return false;
            }
            write_value(TAG_ATOM, val, out);
        } else if tag == SPECIAL_LT_LABEL {
            if val == 0 {
                return false;
            }
            write_value(TAG_LABEL, val, out);
        } else if tag == SPECIAL_LT_REGX {
            write_value(TAG_XREG, val, out);
        } else if tag == SPECIAL_LT_REGY {
            write_value(TAG_YREG, val, out);
        } else {
            out.push(TAG_EXTENDED);
            if tag == SPECIAL_LT_LITERAL {
                out.push(EXT_LITERAL);
            } else {
                out.push(EXT_FPREG);
            }
                write_value(TAG_LITERAL, val, out);
            assert(out@ =~= old(out)@ + encoding(t@)->Some_0);
        }
        true
    } else {
        false
    }
}

} // verus!
