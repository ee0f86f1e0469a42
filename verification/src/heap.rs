//! The heap: an owned array of words that grows by allocation only.
//!
//! A pointer into a heap is the word offset of the block it points to.
//! Allocation appends, so a pointer handed out once stays valid, and the
//! words before a new block are the words that were there.
use vstd::prelude::*;
use crate::fail::RtErr;

verus! {

/// What a block holds that was not asked to be zeroed.  A heap has no
/// uninitialised words: such a block holds this filler in every place.
pub const HEAP_FILLER: u64 = 0x1b;

/// The word that a fresh block holds in every place.
pub open spec fn fresh_word(zeroed: bool) -> u64 {
    if zeroed {
        0
    } else {
        HEAP_FILLER
    }
}

/// A fresh block of `n` words.
pub open spec fn fresh_block(n: nat, zeroed: bool) -> Seq<u64> {
    Seq::new(n, |i: int| fresh_word(zeroed))
}

/// The heap records the words that it has allocated and how many more it
/// may allocate.
#[derive(Debug)]
pub struct Heap {
    data: Vec<u64>,
    free: usize,
}

impl View for Heap {
    type V = Seq<u64>;

    /// The words allocated so far.
    closed spec fn view(&self) -> Seq<u64> {
        self.data@
    }
}

impl Heap {
    /// The number of words that the heap can hold.
    pub closed spec fn limit(&self) -> nat {
        self.data@.len() + self.free as nat
    }

    /// The words of a heap can be counted in a `usize`.
    pub proof fn lemma_len_bound(&self)
        ensures
            self@.len() <= usize::MAX,
    {
        assert(self.data@.len() == self.data.len());
    }

    /// An empty heap that can hold `capacity` words.
    pub fn new(capacity: usize) -> (hp: Heap)
        ensures
            hp@.len() == 0,
            hp.limit() == capacity,
    {
        Heap { data: Vec::new(), free: capacity }
    }

    /// Allocates `n_words` words at the end of the heap and returns the
    /// offset of the first.  The words before it are unchanged.  Fails, and
    /// changes nothing, exactly when the block does not fit under the limit.
    pub fn alloc_words(&mut self, n_words: usize, zeroed: bool) -> (r: Result<usize, RtErr>)
        ensures
            final(self).limit() == old(self).limit(),
            old(self)@.len() + n_words <= old(self).limit() ==> {
                &&& r matches Ok(p)
                &&& p == old(self)@.len()
                &&& final(self)@ == old(self)@ + fresh_block(n_words as nat, zeroed)
            },
            old(self)@.len() + n_words > old(self).limit() ==> {
                &&& r == Err::<usize, RtErr>(RtErr::HeapOutOfMemory)
                &&& final(self)@ == old(self)@
            },
    {
        let start: usize = self.data.len();
        if n_words > self.free {
            return Err(RtErr::HeapOutOfMemory);
        }
        self.free = self.free - n_words;
        let filler: u64 = if zeroed {
            0
        } else {
            HEAP_FILLER
        };
        let ghost before = self.data@;
        assert(self.data@ =~= before + fresh_block(0, zeroed));
        let mut i: usize = 0;
        while i < n_words
            invariant
                i <= n_words,
                self.free == old(self).free - n_words,
                filler == fresh_word(zeroed),
                self.data@ == before + fresh_block(i as nat, zeroed),
                before.len() == start,
            decreases n_words - i,
        {
            self.data.push(filler);
            i += 1;
            assert(self.data@ =~= before + fresh_block(i as nat, zeroed));
        }
        Ok(start)
    }

    /// A heap with the same words and the same limit.
    pub fn duplicate(&self) -> (copy: Heap)
        ensures
            copy@ == self@,
            copy.limit() == self.limit(),
    {
        let mut data: Vec<u64> = Vec::new();
        let mut i: usize = 0;
        while i < self.data.len()
            invariant
                i <= self.data@.len(),
                data@ == self.data@.subrange(0, i as int),
            decreases self.data@.len() - i,
        {
            data.push(self.data[i]);
            i += 1;
            assert(data@ =~= self.data@.subrange(0, i as int));
        }
        assert(data@ =~= self.data@);
        Heap { data, free: self.free }
    }

    /// A heap with the same words, and room for `room` more.
    pub fn duplicate_with_room(&self, room: usize) -> (copy: Heap)
        ensures
            copy@ == self@,
            copy.limit() == self@.len() + room,
    {
        let mut copy = self.duplicate();
        copy.free = room;
        copy
    }

    /// The number of words allocated so far.
    pub fn allocated(&self) -> (n: usize)
        ensures
            n == self@.len(),
            n <= self.limit(),
    {
        self.data.len()
    }

    /// The number of words that can still be allocated.
    pub fn remaining(&self) -> (n: usize)
        ensures
            n == self.limit() - self@.len(),
    {
        self.free
    }

    /// The word at `offset`.
    pub fn get(&self, offset: usize) -> (w: u64)
        requires
            offset < self@.len(),
        ensures
            w == self@[offset as int],
    {
        self.data[offset]
    }

    /// Overwrites the word at `offset`.
    pub fn set(&mut self, offset: usize, w: u64)
        requires
            offset < old(self)@.len(),
        ensures
            final(self)@ == old(self)@.update(offset as int, w),
            final(self).limit() == old(self).limit(),
    {
        self.data[offset] = w;
    }
}

} // verus!
