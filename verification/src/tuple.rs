//! Tuples.
//!
//! On a heap a tuple of `n` elements is a block of `2 + n` words: the
//! header, the arity, and the elements.
use vstd::prelude::*;
use crate::boxed::{
    alloc_block, block_at, block_fits, block_size, boxed_of_type, empty_block,
    BOXTYPETAG_TUPLE,
};
use crate::fail::RtErr;
use crate::heap::Heap;
use crate::term::Term;

verus! {

/// Whether a tuple begins at offset `p`.
pub open spec fn tuple_at(words: Seq<u64>, p: int) -> bool {
    &&& block_at(words, p, BOXTYPETAG_TUPLE)
    &&& block_size(words, p) == 2 + words[p + 1]
}

/// The arity of the tuple at `p`.
pub open spec fn tuple_arity(words: Seq<u64>, p: int) -> nat {
    words[p + 1] as nat
}

/// Element `i` of the tuple at `p`.
pub open spec fn tuple_element(words: Seq<u64>, p: int, i: int) -> u64 {
    words[p + 2 + i]
}

/// The words of a new tuple of arity `arity`: every element holds the
/// heap's filler.
pub open spec fn tuple_image(arity: nat) -> Seq<u64> {
    empty_block(BOXTYPETAG_TUPLE, (2 + arity) as u64).update(1, arity as u64)
}

pub struct Tuple {}

impl Tuple {
    /// Allocates a tuple of `arity` elements and returns its offset.
    /// Fails, and changes nothing, exactly when the block does not fit.
    pub fn create_into(hp: &mut Heap, arity: usize) -> (r: Result<usize, RtErr>)
        ensures
            final(hp).limit() == old(hp).limit(),
            block_fits(*old(hp), 2 + arity as nat) ==> {
                &&& r matches Ok(p)
                &&& p == old(hp)@.len()
                &&& final(hp)@ == old(hp)@ + tuple_image(arity as nat)
                &&& tuple_at(final(hp)@, p as int)
                &&& tuple_arity(final(hp)@, p as int) == arity
            },
            !block_fits(*old(hp), 2 + arity as nat) ==> {
                &&& r == Err::<usize, RtErr>(RtErr::HeapOutOfMemory)
                &&& final(hp)@ == old(hp)@
            },
    {
        let room: usize = hp.remaining();
        if room < 2 || arity > room - 2 {
            return Err(RtErr::HeapOutOfMemory);
        }
        let ghost before = hp@;
        let p: usize = match alloc_block(hp, BOXTYPETAG_TUPLE, 2 + arity) {
            Ok(p) => p,
            Err(e) => {
                return Err(RtErr::HeapOutOfMemory);
            },
        };
        proof {
            hp.lemma_len_bound();
        }
        hp.set(p + 1, arity as u64);
        proof {
            let image = empty_block(BOXTYPETAG_TUPLE, (2 + arity) as u64);
            assert(hp@ =~= before + image.update(1, arity as u64));
        }
        Ok(p)
    }

    /// The offset of the tuple that `t` points to.  Fails exactly when `t`
    /// is no pointer to a tuple on this heap.
    pub fn from_term(hp: &Heap, t: Term) -> (r: Result<usize, RtErr>)
        ensures
            t@ is Boxed && tuple_at(hp@, t@->Boxed_0 as int) ==> {
                &&& r matches Ok(p)
                &&& p == t@->Boxed_0
            },
            !(t@ is Boxed && tuple_at(hp@, t@->Boxed_0 as int)) ==> r == Err::<usize, RtErr>(
                RtErr::BoxedIsNotATuple,
            ),
    {
        let p: usize = match boxed_of_type(hp, t, BOXTYPETAG_TUPLE) {
            Some(p) => p,
            None => {
                return Err(RtErr::BoxedIsNotATuple);
            },
        };
        proof {
            hp.lemma_len_bound();
        }
        let total: u64 = Term::from_raw(hp.get(p)).header_size();
        if total < 2 {
            return Err(RtErr::BoxedIsNotATuple);
        }
        let count: u64 = hp.get(p + 1);
        if count != total - 2 {
            return Err(RtErr::BoxedIsNotATuple);
        }
        Ok(p)
    }

    /// The number of elements.
    pub fn get_arity(hp: &Heap, p: usize) -> (n: usize)
        requires
            tuple_at(hp@, p as int),
        ensures
            n == tuple_arity(hp@, p as int),
            p + 2 + n <= hp@.len(),
    {
        proof {
            hp.lemma_len_bound();
        }
        hp.get(p + 1) as usize
    }

    /// Element `i`.
    pub fn get_element(hp: &Heap, p: usize, i: usize) -> (t: Term)
        requires
            tuple_at(hp@, p as int),
            i < tuple_arity(hp@, p as int),
        ensures
            t.value == tuple_element(hp@, p as int, i as int),
    {
        proof {
            hp.lemma_len_bound();
        }
        Term::from_raw(hp.get(p + 2 + i))
    }

    /// Overwrites element `i`.  Nothing else on the heap changes.
    pub fn set_element(hp: &mut Heap, p: usize, i: usize, t: Term)
        requires
            tuple_at(old(hp)@, p as int),
            i < tuple_arity(old(hp)@, p as int),
        ensures
            final(hp)@ == old(hp)@.update(p + 2 + i, t.value),
            final(hp).limit() == old(hp).limit(),
            tuple_at(final(hp)@, p as int),
            tuple_arity(final(hp)@, p as int) == tuple_arity(old(hp)@, p as int),
    {
        proof {
            hp.lemma_len_bound();
        }
        hp.set(p + 2 + i, t.raw());
    }
}

} // verus!
