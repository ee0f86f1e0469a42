//! Jump tables: what `select_val` chooses from.
//!
//! On a heap a jump table of `n` pairs is a block of `2 + 2n` words: the
//! header, the pair count, and then value and label in turn.  Element `2k`
//! is the value of pair `k` and element `2k + 1` its label.
use vstd::prelude::*;
use crate::boxed::{
    alloc_block, block_at, block_fits, block_size, boxed_of_type, empty_block,
    BOXTYPETAG_JUMP_TABLE,
};
use crate::fail::RtErr;
use crate::heap::Heap;
use crate::term::Term;

verus! {

/// Whether a jump table begins at offset `p`.
pub open spec fn jump_table_at(words: Seq<u64>, p: int) -> bool {
    &&& block_at(words, p, BOXTYPETAG_JUMP_TABLE)
    &&& block_size(words, p) == 2 + 2 * words[p + 1]
}

/// The number of pairs of the jump table at `p`.
pub open spec fn jump_table_count(words: Seq<u64>, p: int) -> nat {
    words[p + 1] as nat
}

/// Element `i` of the jump table at `p`.
pub open spec fn jump_table_element(words: Seq<u64>, p: int, i: int) -> u64 {
    words[p + 2 + i]
}

/// The words of a new jump table of `n_pairs` pairs: every element holds
/// the heap's filler.
pub open spec fn jump_table_image(n_pairs: nat) -> Seq<u64> {
    empty_block(BOXTYPETAG_JUMP_TABLE, (2 + 2 * n_pairs) as u64).update(1, n_pairs as u64)
}

pub struct JumpTable {}

impl JumpTable {
    /// Allocates a jump table of `n_pairs` pairs and returns its offset.
    /// Fails, and changes nothing, exactly when the block does not fit.
    pub fn create_into(hp: &mut Heap, n_pairs: usize) -> (r: Result<usize, RtErr>)
        ensures
            final(hp).limit() == old(hp).limit(),
            block_fits(*old(hp), 2 + 2 * n_pairs as nat) ==> {
                &&& r matches Ok(p)
                &&& p == old(hp)@.len()
                &&& final(hp)@ == old(hp)@ + jump_table_image(n_pairs as nat)
                &&& jump_table_at(final(hp)@, p as int)
                &&& jump_table_count(final(hp)@, p as int) == n_pairs
            },
            !block_fits(*old(hp), 2 + 2 * n_pairs as nat) ==> {
                &&& r == Err::<usize, RtErr>(RtErr::HeapOutOfMemory)
                &&& final(hp)@ == old(hp)@
            },
    {
        let room: usize = hp.remaining();
        if room < 2 || n_pairs > (room - 2) / 2 {
            return Err(RtErr::HeapOutOfMemory);
        }
        let ghost before = hp@;
        let p: usize = match alloc_block(hp, BOXTYPETAG_JUMP_TABLE, 2 + 2 * n_pairs) {
            Ok(p) => p,
            Err(e) => {
                return Err(RtErr::HeapOutOfMemory);
            },
        };
        proof {
            hp.lemma_len_bound();
        }
        hp.set(p + 1, n_pairs as u64);
        proof {
            let image = empty_block(BOXTYPETAG_JUMP_TABLE, (2 + 2 * n_pairs) as u64);
            assert(hp@ =~= before + image.update(1, n_pairs as u64));
        }
        Ok(p)
    }

    /// The offset of the jump table that `t` points to.  Fails exactly when
    /// `t` is no pointer to a jump table on this heap.
    pub fn from_term(hp: &Heap, t: Term) -> (r: Result<usize, RtErr>)
        ensures
            t@ is Boxed && jump_table_at(hp@, t@->Boxed_0 as int) ==> {
                &&& r matches Ok(p)
                &&& p == t@->Boxed_0
            },
            !(t@ is Boxed && jump_table_at(hp@, t@->Boxed_0 as int)) ==> r == Err::<usize, RtErr>(
                RtErr::BoxedIsNotAJumpTable,
            ),
    {
        let p: usize = match boxed_of_type(hp, t, BOXTYPETAG_JUMP_TABLE) {
            Some(p) => p,
            None => {
                return Err(RtErr::BoxedIsNotAJumpTable);
            },
        };
        proof {
            hp.lemma_len_bound();
        }
        let total: u64 = Term::from_raw(hp.get(p)).header_size();
        if total < 2 {
            return Err(RtErr::BoxedIsNotAJumpTable);
        }
        let count: u64 = hp.get(p + 1);
        if count > (total - 2) / 2 || 2 + 2 * count != total {
            return Err(RtErr::BoxedIsNotAJumpTable);
        }
        Ok(p)
    }

    /// The number of pairs.
    pub fn get_count(hp: &Heap, p: usize) -> (n: usize)
        requires
            jump_table_at(hp@, p as int),
        ensures
            n == jump_table_count(hp@, p as int),
            p + 2 + 2 * n <= hp@.len(),
    {
        proof {
            hp.lemma_len_bound();
        }
        hp.get(p + 1) as usize
    }

    /// Pair `i`: its value and its label.
    pub fn get_pair(hp: &Heap, p: usize, i: usize) -> (r: (Term, Term))
        requires
            jump_table_at(hp@, p as int),
            i < jump_table_count(hp@, p as int),
        ensures
            r.0.value == jump_table_element(hp@, p as int, 2 * i),
            r.1.value == jump_table_element(hp@, p as int, 2 * i + 1),
    {
        proof {
            hp.lemma_len_bound();
        }
        (Term::from_raw(hp.get(p + 2 + 2 * i)), Term::from_raw(hp.get(p + 3 + 2 * i)))
    }

    /// Element `i`, counted over values and labels alike.
    pub fn get_element(hp: &Heap, p: usize, i: usize) -> (t: Term)
        requires
            jump_table_at(hp@, p as int),
            i < 2 * jump_table_count(hp@, p as int),
        ensures
            t.value == jump_table_element(hp@, p as int, i as int),
    {
        proof {
            hp.lemma_len_bound();
        }
        Term::from_raw(hp.get(p + 2 + i))
    }

    /// Overwrites element `i`.  Nothing else on the heap changes.
    pub fn set_element(hp: &mut Heap, p: usize, i: usize, t: Term)
        requires
            jump_table_at(old(hp)@, p as int),
            i < 2 * jump_table_count(old(hp)@, p as int),
        ensures
            final(hp)@ == old(hp)@.update(p + 2 + i, t.value),
            final(hp).limit() == old(hp).limit(),
            jump_table_at(final(hp)@, p as int),
            jump_table_count(final(hp)@, p as int) == jump_table_count(old(hp)@, p as int),
    {
        proof {
            hp.lemma_len_bound();
        }
        hp.set(p + 2 + i, t.raw());
    }
}

} // verus!
