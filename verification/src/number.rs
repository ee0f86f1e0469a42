//! Integers of any size as sign and magnitude, built up byte by byte.
use vstd::prelude::*;
use crate::bignum::{bignum_image, limbs_value, Sign};
use crate::bin_reader::be_value;
use crate::term::{small_fits_spec, SMALL_MAX};

verus! {

/// `256^n`.
pub open spec fn pow256(n: nat) -> nat
    decreases n,
{
    if n == 0 {
        1
    } else {
        256 * pow256((n - 1) as nat)
    }
}

/// The number that bytes stand for in two's complement, most significant
/// byte first.
pub open spec fn be_signed(bytes: Seq<u8>) -> int {
    if bytes.len() > 0 && bytes[0] >= 128 {
        be_value(bytes) - pow256(bytes.len())
    } else {
        be_value(bytes) as int
    }
}

/// The limbs of `m`, least significant first, without a leading zero limb.
pub open spec fn magnitude_limbs(m: nat) -> Seq<u64>
    decreases m,
{
    if m == 0 {
        Seq::<u64>::empty()
    } else {
        seq![(m % 0x1_0000_0000_0000_0000) as u64] + magnitude_limbs(m / 0x1_0000_0000_0000_0000)
    }
}

/// The words of the bignum that stands for `v`.
pub open spec fn integer_image(v: int) -> Seq<u64> {
    if v < 0 {
        bignum_image(Sign::Negative, magnitude_limbs((-v) as nat))
    } else {
        bignum_image(Sign::Positive, magnitude_limbs(v as nat))
    }
}

/// Limbs without a leading zero: the most significant limb is not zero.
pub open spec fn canonical(limbs: Seq<u64>) -> bool {
    limbs.len() == 0 || limbs.last() != 0
}

/// The limbs of a number stand for that number.
pub proof fn lemma_magnitude_limbs_value(m: nat)
    ensures
        limbs_value(magnitude_limbs(m)) == m,
        canonical(magnitude_limbs(m)),
    decreases m,
{
    if m != 0 {
        let rest = m / 0x1_0000_0000_0000_0000;
        let limbs = magnitude_limbs(m);
        lemma_magnitude_limbs_value(rest);
        assert(limbs.drop_first() =~= magnitude_limbs(rest));
        assert(limbs[0] == (m % 0x1_0000_0000_0000_0000) as u64);
        if rest != 0 {
            assert(limbs.last() == magnitude_limbs(rest).last());
        }
    }
}

/// Limbs without a leading zero are the limbs of their value: a number has
/// one such representation.
pub proof fn lemma_canonical_unique(limbs: Seq<u64>)
    requires
        canonical(limbs),
    ensures
        limbs == magnitude_limbs(limbs_value(limbs)),
        limbs.len() > 0 ==> limbs_value(limbs) > 0,
    decreases limbs.len(),
{
    if limbs.len() > 0 {
        let rest = limbs.drop_first();
        let m = limbs_value(limbs);
        if rest.len() > 0 {
            assert(rest.last() == limbs.last());
        }
        lemma_canonical_unique(rest);
        assert(m == limbs[0] + 0x1_0000_0000_0000_0000 * limbs_value(rest));
        assert(m / 0x1_0000_0000_0000_0000 == limbs_value(rest));
        assert(m % 0x1_0000_0000_0000_0000 == limbs[0]);
        assert(limbs =~= seq![limbs[0]] + rest);
    } else {
        assert(limbs =~= Seq::<u64>::empty());
    }
}

/// The limbs of `256 * m + carry`, given the limbs of `m`.
pub open spec fn shifted(limbs: Seq<u64>, carry: nat) -> Seq<u64>
    decreases limbs.len(),
{
    if limbs.len() == 0 {
        if carry == 0 {
            Seq::<u64>::empty()
        } else {
            seq![carry as u64]
        }
    } else {
        let t = limbs[0] * 256 + carry;
        seq![(t % 0x1_0000_0000_0000_0000) as u64] + shifted(
            limbs.drop_first(),
            (t / 0x1_0000_0000_0000_0000) as nat,
        )
    }
}

/// `shifted` multiplies by 256 and adds the carry, and keeps limbs canonical.
pub proof fn lemma_shifted(limbs: Seq<u64>, carry: nat)
    requires
        carry <= 256,
        canonical(limbs),
    ensures
        limbs_value(shifted(limbs, carry)) == 256 * limbs_value(limbs) + carry,
        canonical(shifted(limbs, carry)),
        shifted(limbs, carry).len() >= limbs.len(),
    decreases limbs.len(),
{
    if limbs.len() == 0 {
        if carry != 0 {
            let s = seq![carry as u64];
            assert(s.drop_first() =~= Seq::<u64>::empty());
            assert(limbs_value(s) == carry + 0x1_0000_0000_0000_0000 * limbs_value(s.drop_first()));
        }
    } else {
        let t = limbs[0] * 256 + carry;
        let low = (t % 0x1_0000_0000_0000_0000) as u64;
        let high = (t / 0x1_0000_0000_0000_0000) as nat;
        let rest = limbs.drop_first();
        if rest.len() > 0 {
            assert(rest.last() == limbs.last());
        }
        lemma_shifted(rest, high);
        let out = shifted(limbs, carry);
        assert(out.drop_first() =~= shifted(rest, high));
        assert(out[0] == low);
        if shifted(rest, high).len() > 0 {
            assert(out.last() == shifted(rest, high).last());
        } else {
            assert(rest.len() == 0);
            assert(high == 0);
            assert(limbs.last() == limbs[0]);
        }
    }
}

/// An integer of any size: a sign, and the magnitude in canonical limbs.
#[derive(Debug)]
pub struct Number {
    pub negative: bool,
    pub limbs: Vec<u64>,
}

impl Number {
    /// The limbs are canonical, and zero is not negative.
    pub open spec fn wf(&self) -> bool {
        &&& canonical(self.limbs@)
        &&& self.negative ==> self.limbs@.len() > 0
    }

    /// The integer that the number stands for.
    pub open spec fn value(&self) -> int {
        if self.negative {
            -(limbs_value(self.limbs@) as int)
        } else {
            limbs_value(self.limbs@) as int
        }
    }

    /// The number `v`.
    pub fn from_u64(v: u64) -> (n: Number)
        ensures
            n.wf(),
            n.value() == v,
    {
        let mut limbs: Vec<u64> = Vec::new();
        if v != 0 {
            limbs.push(v);
            proof {
                assert(limbs@.drop_first() =~= Seq::<u64>::empty());
                assert(limbs_value(limbs@) == v + 0x1_0000_0000_0000_0000 * limbs_value(
                    limbs@.drop_first(),
                ));
            }
        }
        Number { negative: false, limbs }
    }

    /// The number that the `n` bytes from `start` stand for, most
    /// significant byte first: in two's complement if `signed`, else as a
    /// magnitude.
    pub fn from_be_bytes(bytes: &[u8], start: usize, n: usize, signed: bool) -> (r: Number)
        requires
            n >= 1,
            start + n <= bytes@.len(),
        ensures
            r.wf(),
            signed ==> r.value() == be_signed(bytes@.subrange(start as int, start + n)),
            !signed ==> r.value() == be_value(bytes@.subrange(start as int, start + n)),
    {
        let ghost window = bytes@.subrange(start as int, start + n);
        let total: usize = bytes.len();
        let negative: bool = signed && bytes[start] >= 128;
        let mut limbs: Vec<u64> = Vec::new();
        let mut k: usize = 0;
        assert(window.subrange(0, 0) =~= Seq::<u8>::empty());
        while k < n
            invariant
                k <= n,
                n >= 1,
                start + n <= total == bytes@.len(),
                window == bytes@.subrange(start as int, start + n),
                canonical(limbs@),
                negative ==> limbs_value(limbs@) == (if k == n {
                    pow256(k as nat) - be_value(window.subrange(0, k as int))
                } else {
                    pow256(k as nat) - 1 - be_value(window.subrange(0, k as int))
                }),
                !negative ==> limbs_value(limbs@) == be_value(window.subrange(0, k as int)),
            decreases n - k,
        {
            let b: u8 = bytes[start + k];
            let carry: u64 = if negative {
                if k + 1 == n {
                    (255 - b) as u64 + 1
                } else {
                    (255 - b) as u64
                }
            } else {
                b as u64
            };
            proof {
                let longer = window.subrange(0, k + 1);
                assert(longer.drop_last() =~= window.subrange(0, k as int));
                assert(longer.last() == b);
                lemma_shifted(limbs@, carry as nat);
            }
            shift_in(&mut limbs, carry);
            k += 1;
        }
        proof {
            assert(window.subrange(0, n as int) =~= window);
            if negative {
                lemma_be_value_bound(window);
                assert(limbs_value(limbs@) > 0);
            }
        }
        Number { negative, limbs }
    }

    /// The number as a small integer, if it is in the small-integer range.
    pub fn to_small(&self) -> (r: Option<i64>)
        requires
            self.wf(),
        ensures
            small_fits_spec(self.value()) ==> r == Some(self.value() as i64),
            !small_fits_spec(self.value()) ==> r.is_none(),
    {
        proof {
            lemma_short_limbs(self.limbs@);
        }
        if self.limbs.len() == 0 {
            Some(0)
        } else if self.limbs.len() == 1 {
            let m: u64 = self.limbs[0];
            if self.negative {
                if m <= 0x0800_0000_0000_0000 {
                    Some((0 - (m - 1) as i64) - 1)
                } else {
                    None
                }
            } else if m <= SMALL_MAX as u64 {
                Some(m as i64)
            } else {
                None
            }
        } else {
            None
        }
    }

    /// The number as an index, if it is at least zero and less than `bound`.
    pub fn to_index(&self, bound: u64) -> (r: Option<u64>)
        requires
            self.wf(),
        ensures
            0 <= self.value() < bound ==> r == Some(self.value() as u64),
            !(0 <= self.value() < bound) ==> r.is_none(),
    {
        proof {
            lemma_short_limbs(self.limbs@);
        }
        if self.limbs.len() == 0 {
            if bound > 0 {
                Some(0)
            } else {
                None
            }
        } else if self.limbs.len() == 1 && !self.negative && self.limbs[0] < bound {
            Some(self.limbs[0])
        } else {
            None
        }
    }
}

/// The value of no limb, of one limb, and a lower bound for more.
pub proof fn lemma_short_limbs(limbs: Seq<u64>)
    requires
        canonical(limbs),
    ensures
        limbs.len() == 0 ==> limbs_value(limbs) == 0,
        limbs.len() == 1 ==> limbs_value(limbs) == limbs[0] && limbs[0] > 0,
        limbs.len() >= 2 ==> limbs_value(limbs) >= 0x1_0000_0000_0000_0000,
{
    if limbs.len() >= 1 {
        let rest = limbs.drop_first();
        if rest.len() > 0 {
            assert(rest.last() == limbs.last());
        }
        lemma_canonical_unique(rest);
        assert(limbs_value(limbs) == limbs[0] + 0x1_0000_0000_0000_0000 * limbs_value(rest));
    }
}

/// Bytes stand for a number below `256^n`; with a leading byte of 128 or
/// more, for one of at least half of that.
pub proof fn lemma_be_value_bound(bytes: Seq<u8>)
    ensures
        be_value(bytes) < pow256(bytes.len()),
        bytes.len() > 0 ==> be_value(bytes) >= bytes[0] * pow256((bytes.len() - 1) as nat),
        bytes.len() > 0 ==> be_value(bytes) < (bytes[0] + 1) * pow256((bytes.len() - 1) as nat),
    decreases bytes.len(),
{
    if bytes.len() > 0 {
        let front = bytes.drop_last();
        lemma_be_value_bound(front);
        if front.len() > 0 {
            assert(front[0] == bytes[0]);
            let p = pow256((front.len() - 1) as nat);
            let lead = bytes[0] as int;
            assert(pow256(front.len()) == 256 * p);
            assert(lead * (256 * p) == 256 * (lead * p)) by (nonlinear_arith);
            assert((lead + 1) * (256 * p) == 256 * (lead * p) + 256 * p) by (nonlinear_arith);
            assert((lead + 1) * p == lead * p + p) by (nonlinear_arith);
        } else {
            let lead = bytes[0] as int;
            assert(pow256(0) == 1);
            assert(be_value(front) == 0);
            assert(bytes.last() == bytes[0]);
            assert(lead * 1 == lead && (lead + 1) * 1 == lead + 1) by (nonlinear_arith);
        }
    }
}

/// Replaces the limbs of `m` by those of `256 * m + carry`.
fn shift_in(limbs: &mut Vec<u64>, carry: u64)
    requires
        carry <= 256,
    ensures
        final(limbs)@ == shifted(old(limbs)@, carry as nat),
{
    let n: usize = limbs.len();
    let ghost before = limbs@;
    let mut c: u64 = carry;
    let mut i: usize = 0;
    assert(before.subrange(0, n as int) =~= before);
    while i < n
        invariant
            i <= n,
            n == before.len(),
            limbs@.len() == n,
            c <= 256,
            forall|j: int| i <= j < n ==> limbs@[j] == before[j],
            limbs@.subrange(0, i as int) + shifted(before.subrange(i as int, n as int), c as nat)
                == shifted(before, carry as nat),
        decreases n - i,
    {
        let t: u128 = (limbs[i] as u128) * 256 + c as u128;
        let low: u64 = (t % 0x1_0000_0000_0000_0000) as u64;
        let high: u64 = (t / 0x1_0000_0000_0000_0000) as u64;
        let ghost tail = before.subrange(i as int, n as int);
        let ghost rest = before.subrange(i + 1, n as int);
        proof {
            assert(tail[0] == limbs@[i as int]);
            assert(tail.drop_first() =~= rest);
            assert(shifted(tail, c as nat) == seq![low] + shifted(rest, high as nat));
        }
        let ghost prev = limbs@;
        limbs[i] = low;
        proof {
            assert(limbs@.subrange(0, i + 1) =~= prev.subrange(0, i as int) + seq![low]);
            assert(limbs@.subrange(0, i + 1) + shifted(rest, high as nat) =~= prev.subrange(
                0,
                i as int,
            ) + (seq![low] + shifted(rest, high as nat)));
        }
        c = high;
        i += 1;
    }
    proof {
        assert(before.subrange(n as int, n as int).len() == 0);
        assert(limbs@.subrange(0, n as int) =~= limbs@);
    }
    if c != 0 {
        limbs.push(c);
        assert(limbs@ =~= shifted(before, carry as nat));
    } else {
        assert(limbs@ =~= shifted(before, carry as nat));
    }
}

/// The first limb, or zero where there is none.
pub open spec fn limb0(limbs: Seq<u64>) -> u64 {
    if limbs.len() > 0 {
        limbs[0]
    } else {
        0
    }
}

/// The limbs behind the first.
pub open spec fn higher(limbs: Seq<u64>) -> Seq<u64> {
    if limbs.len() > 0 {
        limbs.drop_first()
    } else {
        limbs
    }
}

/// The limbs of `acc + x * b + carry`, given the limbs of `acc` and of `b`.
pub open spec fn fused(acc: Seq<u64>, b: Seq<u64>, x: u64, carry: u64) -> Seq<u64>
    decreases acc.len() + b.len(),
{
    if acc.len() == 0 && b.len() == 0 {
        if carry == 0 {
            Seq::<u64>::empty()
        } else {
            seq![carry]
        }
    } else {
        let t = limb0(acc) + x * limb0(b) + carry;
        seq![(t % 0x1_0000_0000_0000_0000) as u64] + fused(
            higher(acc),
            higher(b),
            x,
            (t / 0x1_0000_0000_0000_0000) as u64,
        )
    }
}

/// The value of limbs, by the first limb and the rest.
pub proof fn lemma_limbs_split(limbs: Seq<u64>)
    ensures
        limbs_value(limbs) == limb0(limbs) + 0x1_0000_0000_0000_0000 * limbs_value(higher(limbs)),
{
}

/// One limb times one limb, and two limbs more, fit in two limbs.
pub proof fn lemma_fused_step(a0: u64, x: u64, b0: u64, c: u64)
    ensures
        0 <= a0 + x * b0 + c <= 0xffff_ffff_ffff_ffff_ffff_ffff_ffff_ffff,
        (a0 + x * b0 + c) / 0x1_0000_0000_0000_0000 <= 0xffff_ffff_ffff_ffff,
{
    assert(0 <= x * b0 <= 0xffff_ffff_ffff_ffff * 0xffff_ffff_ffff_ffff) by (nonlinear_arith)
        requires
            0 <= x <= 0xffff_ffff_ffff_ffff,
            0 <= b0 <= 0xffff_ffff_ffff_ffff,
    ;
}

/// `fused` adds `x` times `b` and the carry.
pub proof fn lemma_fused(acc: Seq<u64>, b: Seq<u64>, x: u64, carry: u64)
    ensures
        limbs_value(fused(acc, b, x, carry)) == limbs_value(acc) + x * limbs_value(b) + carry,
    decreases acc.len() + b.len(),
{
    if acc.len() == 0 && b.len() == 0 {
        if carry != 0 {
            let s = seq![carry];
            assert(s.drop_first() =~= Seq::<u64>::empty());
            assert(limbs_value(s) == carry + 0x1_0000_0000_0000_0000 * limbs_value(s.drop_first()));
        }
        let vb = limbs_value(b) as int;
        assert(x * vb == 0) by (nonlinear_arith)
            requires
                vb == 0,
        ;
    } else {
        let base = 0x1_0000_0000_0000_0000int;
        let t = limb0(acc) + x * limb0(b) + carry;
        lemma_fused_step(limb0(acc), x, limb0(b), carry);
        let low = (t % base) as u64;
        let high = (t / base) as u64;
        lemma_fused(higher(acc), higher(b), x, high);
        let out = fused(acc, b, x, carry);
        assert(out.drop_first() =~= fused(higher(acc), higher(b), x, high));
        assert(out[0] == low);
        lemma_limbs_split(acc);
        lemma_limbs_split(b);
        let va = limbs_value(higher(acc)) as int;
        let vb = limbs_value(higher(b)) as int;
        let b0 = limb0(b) as int;
        let xi = x as int;
        assert(xi * (b0 + base * vb) == xi * b0 + base * (xi * vb)) by (nonlinear_arith);
        assert(t == low + base * high);
        assert(limbs_value(out) == out[0] + base * limbs_value(out.drop_first()));
        assert(limbs_value(fused(higher(acc), higher(b), x, high)) == va + xi * vb + high);
        assert(limbs_value(out) == low + base * (va + xi * vb + high));
        assert(base * (va + xi * vb + high) == base * va + base * (xi * vb) + base * high)
            by (nonlinear_arith);
        assert(limbs_value(b) == b0 + base * vb);
        assert(x * limbs_value(b) == xi * (b0 + base * vb));
        assert(x * limb0(b) == xi * b0);
    }
}

/// Replaces the limbs of `acc` by those of `acc + x * b`.
fn fuse_in(acc: &mut Vec<u64>, b: &[u64], x: u64)
    ensures
        final(acc)@ == fused(old(acc)@, b@, x, 0),
{
    let ghost before = acc@;
    let n: usize = if acc.len() > b.len() {
        acc.len()
    } else {
        b.len()
    };
    while acc.len() < n
        invariant
            n >= b@.len(),
            n >= before.len(),
            acc@.len() <= n,
            acc@.len() >= before.len(),
            forall|j: int| 0 <= j < before.len() ==> acc@[j] == before[j],
            forall|j: int| before.len() <= j < acc@.len() ==> acc@[j] == 0,
        decreases n - acc@.len(),
    {
        acc.push(0);
    }
    let ghost padded = acc@;
    proof {
        lemma_fused_padded(before, padded, b@, x, 0);
    }
    let mut c: u64 = 0;
    let mut i: usize = 0;
    assert(padded.subrange(0, n as int) =~= padded);
    assert(tail_from(b@, 0) =~= b@);
    assert(acc@.subrange(0, 0) + fused(padded, b@, x, 0) =~= fused(padded, b@, x, 0));
    while i < n
        invariant
            i <= n,
            n == padded.len(),
            n >= b@.len(),
            acc@.len() == n,
            forall|j: int| i <= j < n ==> acc@[j] == padded[j],
            acc@.subrange(0, i as int) + fused(
                padded.subrange(i as int, n as int),
                tail_from(b@, i as int),
                x,
                c,
            ) == fused(padded, b@, x, 0),
        decreases n - i,
    {
        let b0: u64 = if i < b.len() {
            b[i]
        } else {
            0
        };
        proof {
            lemma_fused_step(acc@[i as int], x, b0, c);
        }
        let t: u128 = acc[i] as u128 + (x as u128) * (b0 as u128) + c as u128;
        let low: u64 = (t % 0x1_0000_0000_0000_0000) as u64;
        let high: u64 = (t / 0x1_0000_0000_0000_0000) as u64;
        let ghost rest_a = padded.subrange(i as int, n as int);
        let ghost rest_b = tail_from(b@, i as int);
        proof {
            assert(limb0(rest_a) == acc@[i as int]);
            assert(limb0(rest_b) == b0);
            assert(higher(rest_a) =~= padded.subrange(i + 1, n as int));
            assert(higher(rest_b) =~= tail_from(b@, i + 1));
            assert(fused(rest_a, rest_b, x, c) == seq![low] + fused(
                padded.subrange(i + 1, n as int),
                tail_from(b@, i + 1),
                x,
                high,
            ));
        }
        let ghost prev = acc@;
        acc[i] = low;
        proof {
            assert(acc@.subrange(0, i + 1) =~= prev.subrange(0, i as int) + seq![low]);
            assert(acc@.subrange(0, i + 1) + fused(
                padded.subrange(i + 1, n as int),
                tail_from(b@, i + 1),
                x,
                high,
            ) =~= prev.subrange(0, i as int) + (seq![low] + fused(
                padded.subrange(i + 1, n as int),
                tail_from(b@, i + 1),
                x,
                high,
            )));
        }
        c = high;
        i += 1;
    }
    proof {
        assert(padded.subrange(n as int, n as int).len() == 0);
        assert(tail_from(b@, n as int).len() == 0);
        assert(acc@.subrange(0, n as int) =~= acc@);
    }
    if c != 0 {
        acc.push(c);
        assert(acc@ =~= fused(padded, b@, x, 0));
    } else {
        assert(acc@ =~= fused(padded, b@, x, 0));
    }
}

/// The limbs from `i` on; none where there are no more.
pub open spec fn tail_from(limbs: Seq<u64>, i: int) -> Seq<u64> {
    if i < limbs.len() {
        limbs.subrange(i, limbs.len() as int)
    } else {
        Seq::<u64>::empty()
    }
}

/// Zero limbs at the end change nothing in what `fused` stands for, and
/// nothing in the limbs that it gives once they are as many as the limbs of
/// the longer operand.
proof fn lemma_fused_padded(acc: Seq<u64>, padded: Seq<u64>, b: Seq<u64>, x: u64, carry: u64)
    requires
        acc.len() <= padded.len(),
        padded.len() <= (if acc.len() > b.len() {
            acc.len()
        } else {
            b.len()
        }),
        forall|j: int| 0 <= j < acc.len() ==> padded[j] == acc[j],
        forall|j: int| acc.len() <= j < padded.len() ==> padded[j] == 0,
    ensures
        fused(padded, b, x, carry) == fused(acc, b, x, carry),
    decreases padded.len() + b.len(),
{
    if padded.len() == 0 {
        assert(acc =~= padded);
    } else if acc.len() == 0 && b.len() == 0 {
    } else {
        let t = limb0(acc) + x * limb0(b) + carry;
        let high = (t / 0x1_0000_0000_0000_0000) as u64;
        assert(limb0(padded) == limb0(acc));
        lemma_fused_padded(higher(acc), higher(padded), higher(b), x, high);
    }
}

/// A zero limb at the end changes nothing in what limbs stand for.
pub proof fn lemma_leading_zero(limbs: Seq<u64>)
    ensures
        limbs_value(limbs.push(0)) == limbs_value(limbs),
    decreases limbs.len(),
{
    let longer = limbs.push(0);
    assert(limbs_value(longer) == longer[0] + 0x1_0000_0000_0000_0000 * limbs_value(
        longer.drop_first(),
    ));
    if limbs.len() == 0 {
        assert(longer.drop_first() =~= Seq::<u64>::empty());
        assert(longer[0] == 0);
    } else {
        lemma_leading_zero(limbs.drop_first());
        assert(longer.drop_first() =~= limbs.drop_first().push(0));
        assert(longer[0] == limbs[0]);
    }
}

/// The limbs of the product of two numbers, without a leading zero limb.
pub fn mul_limbs(a: &[u64], b: &[u64]) -> (r: Vec<u64>)
    ensures
        limbs_value(r@) == limbs_value(a@) * limbs_value(b@),
        canonical(r@),
{
    let n: usize = a.len();
    let mut acc: Vec<u64> = Vec::new();
    let mut i: usize = n;
    proof {
        assert(a@.subrange(n as int, n as int) =~= Seq::<u64>::empty());
        assert(0 * limbs_value(b@) == 0) by (nonlinear_arith);
    }
    while i > 0
        invariant
            i <= n,
            n == a@.len(),
            limbs_value(acc@) == limbs_value(a@.subrange(i as int, n as int)) * limbs_value(b@),
        decreases i,
    {
        i -= 1;
        let ghost before = acc@;
        acc.insert(0, 0);
        proof {
            assert(acc@.drop_first() =~= before);
            assert(limbs_value(acc@) == 0x1_0000_0000_0000_0000 * limbs_value(before));
            lemma_fused(acc@, b@, a[i as int], 0);
            let upper = a@.subrange(i + 1, n as int);
            let from = a@.subrange(i as int, n as int);
            assert(from.drop_first() =~= upper);
            let vu = limbs_value(upper) as int;
            let vb = limbs_value(b@) as int;
            let x = a[i as int] as int;
            assert((x + 0x1_0000_0000_0000_0000 * vu) * vb == 0x1_0000_0000_0000_0000 * (vu * vb)
                + x * vb) by (nonlinear_arith);
        }
        fuse_in(&mut acc, b, a[i]);
    }
    proof {
        assert(a@.subrange(0, n as int) =~= a@);
    }
    while acc.len() > 0 && acc[acc.len() - 1] == 0
        invariant
            limbs_value(acc@) == limbs_value(a@) * limbs_value(b@),
        decreases acc@.len(),
    {
        let ghost before = acc@;
        let dropped = acc.pop();
        proof {
            assert(before =~= acc@.push(0));
            lemma_leading_zero(acc@);
        }
    }
    acc
}

} // verus!
