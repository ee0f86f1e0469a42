//! A cursor over bytes.
//!
//! Every read advances the cursor by what it read.  A read that would pass
//! the end of the bytes fails with `UnexpectedEof` and leaves the cursor
//! where it was.
use vstd::prelude::*;
use crate::fail::RtErr;

verus! {

/// The number that bytes stand for, most significant byte first.
pub open spec fn be_value(bytes: Seq<u8>) -> nat
    decreases bytes.len(),
{
    if bytes.len() == 0 {
        0
    } else {
        be_value(bytes.drop_last()) * 256 + bytes.last() as nat
    }
}

#[derive(Debug)]
pub struct BinaryReader {
    buf: Vec<u8>,
    pos: usize,
}

impl BinaryReader {
    /// The bytes under the cursor: all of them, read or not.
    pub closed spec fn bytes(&self) -> Seq<u8> {
        self.buf@
    }

    /// The number of bytes already read.
    pub closed spec fn pos(&self) -> nat {
        if self.pos <= self.buf@.len() {
            self.pos as nat
        } else {
            self.buf@.len()
        }
    }

    /// The cursor is within the bytes, or just behind them.
    pub proof fn lemma_pos_bound(&self)
        ensures
            self.pos() <= self.bytes().len(),
    {
    }

    /// The cursor.
    fn cursor(&self) -> (p: usize)
        ensures
            p == self.pos(),
            p <= self.buf@.len(),
    {
        if self.pos <= self.buf.len() {
            self.pos
        } else {
            self.buf.len()
        }
    }

    /// Whether `n` more bytes can be read.
    pub open spec fn has(&self, n: nat) -> bool {
        self.pos() + n <= self.bytes().len()
    }

    /// The next `n` bytes.
    pub open spec fn window(&self, n: nat) -> Seq<u8>
        recommends
            self.has(n),
    {
        self.bytes().subrange(self.pos() as int, (self.pos() + n) as int)
    }

    /// A reader at the start of `bytes`.
    pub fn from_bytes(bytes: Vec<u8>) -> (r: BinaryReader)
        ensures
            r.bytes() == bytes@,
            r.pos() == 0,
    {
        BinaryReader { buf: bytes, pos: 0 }
    }

    /// Whether every byte has been read.
    pub fn eof(&self) -> (b: bool)
        ensures
            b == !self.has(1),
    {
        self.cursor() >= self.buf.len()
    }

    /// Moves the cursor back to the start.
    pub fn reset(&mut self)
        ensures
            final(self).bytes() == old(self).bytes(),
            final(self).pos() == 0,
    {
        self.pos = 0;
    }

    /// The number of bytes already read.
    pub fn position(&self) -> (n: usize)
        ensures
            n == self.pos(),
            n <= self.bytes().len(),
    {
        self.cursor()
    }

    /// The number of bytes under the cursor.
    pub fn len(&self) -> (n: usize)
        ensures
            n == self.bytes().len(),
    {
        self.buf.len()
    }

    /// The next byte, without advancing.
    pub fn peek_u8(&self) -> (r: Result<u8, RtErr>)
        ensures
            self.has(1) ==> r == Ok::<u8, RtErr>(self.bytes()[self.pos() as int]),
            !self.has(1) ==> r == Err::<u8, RtErr>(RtErr::UnexpectedEof),
    {
        let p: usize = self.cursor();
        if p < self.buf.len() {
            Ok(self.buf[p])
        } else {
            Err(RtErr::UnexpectedEof)
        }
    }

    pub fn read_u8(&mut self) -> (r: Result<u8, RtErr>)
        ensures
            final(self).bytes() == old(self).bytes(),
            old(self).has(1) ==> {
                &&& r == Ok::<u8, RtErr>(old(self).bytes()[old(self).pos() as int])
                &&& final(self).pos() == old(self).pos() + 1
            },
            !old(self).has(1) ==> {
                &&& r == Err::<u8, RtErr>(RtErr::UnexpectedEof)
                &&& final(self).pos() == old(self).pos()
            },
    {
        let p: usize = self.cursor();
        if p < self.buf.len() {
            let b: u8 = self.buf[p];
            self.pos = p + 1;
            Ok(b)
        } else {
            Err(RtErr::UnexpectedEof)
        }
    }

    /// The next two bytes as a number, most significant byte first.
    pub fn read_u16_be(&mut self) -> (r: Result<u16, RtErr>)
        ensures
            final(self).bytes() == old(self).bytes(),
            old(self).has(2) ==> {
                &&& r matches Ok(v)
                &&& v == be_value(old(self).window(2))
                &&& final(self).pos() == old(self).pos() + 2
            },
            !old(self).has(2) ==> {
                &&& r == Err::<u16, RtErr>(RtErr::UnexpectedEof)
                &&& final(self).pos() == old(self).pos()
            },
    {
        let n: usize = self.buf.len();
        let p: usize = self.cursor();
        if n - p < 2 {
            return Err(RtErr::UnexpectedEof);
        }
        let b0: u16 = self.buf[p] as u16;
        let b1: u16 = self.buf[p + 1] as u16;
        proof {
            lemma_be_value_2(self.buf@.subrange(p as int, p + 2));
        }
        self.pos = p + 2;
        Ok(b0 * 256 + b1)
    }

    /// The next four bytes as a number, most significant byte first.
    pub fn read_u32_be(&mut self) -> (r: Result<u32, RtErr>)
        ensures
            final(self).bytes() == old(self).bytes(),
            old(self).has(4) ==> {
                &&& r matches Ok(v)
                &&& v == be_value(old(self).window(4))
                &&& final(self).pos() == old(self).pos() + 4
            },
            !old(self).has(4) ==> {
                &&& r == Err::<u32, RtErr>(RtErr::UnexpectedEof)
                &&& final(self).pos() == old(self).pos()
            },
    {
        let n: usize = self.buf.len();
        let p: usize = self.cursor();
        if n - p < 4 {
            return Err(RtErr::UnexpectedEof);
        }
        let b0: u32 = self.buf[p] as u32;
        let b1: u32 = self.buf[p + 1] as u32;
        let b2: u32 = self.buf[p + 2] as u32;
        let b3: u32 = self.buf[p + 3] as u32;
        proof {
            lemma_be_value_4(self.buf@.subrange(p as int, p + 4));
        }
        self.pos = p + 4;
        Ok(((b0 * 256 + b1) * 256 + b2) * 256 + b3)
    }

    /// The next `n` bytes.
    pub fn read_bytes(&mut self, n: usize) -> (r: Result<Vec<u8>, RtErr>)
        ensures
            final(self).bytes() == old(self).bytes(),
            old(self).has(n as nat) ==> {
                &&& r matches Ok(v)
                &&& v@ == old(self).window(n as nat)
                &&& final(self).pos() == old(self).pos() + n
            },
            !old(self).has(n as nat) ==> {
                &&& r == Err::<Vec<u8>, RtErr>(RtErr::UnexpectedEof)
                &&& final(self).pos() == old(self).pos()
            },
    {
        let len: usize = self.buf.len();
        let start: usize = self.cursor();
        if len - start < n {
            return Err(RtErr::UnexpectedEof);
        }
        let mut out: Vec<u8> = Vec::new();
        let mut i: usize = 0;
        while i < n
            invariant
                i <= n,
                start + n <= self.buf.len(),
                self.buf@ == old(self).buf@,
                out@ == self.buf@.subrange(start as int, start + i),
            decreases n - i,
        {
            out.push(self.buf[start + i]);
            i += 1;
            assert(out@ =~= self.buf@.subrange(start as int, start + i));
        }
        self.pos = start + n;
        Ok(out)
    }
}

/// The value of two bytes.
pub proof fn lemma_be_value_2(b: Seq<u8>)
    requires
        b.len() == 2,
    ensures
        be_value(b) == b[0] * 256 + b[1],
{
    reveal_with_fuel(be_value, 3);
    assert(b.drop_last().drop_last().len() == 0);
}

/// The value of four bytes.
pub proof fn lemma_be_value_4(b: Seq<u8>)
    requires
        b.len() == 4,
    ensures
        be_value(b) == ((b[0] * 256 + b[1]) * 256 + b[2]) * 256 + b[3],
{
    reveal_with_fuel(be_value, 5);
    assert(b.drop_last().drop_last().drop_last().drop_last().len() == 0);
}

} // verus!
