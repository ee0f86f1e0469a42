//! Boxed values: what lies on a heap behind a boxed pointer.
//!
//! Every boxed value begins with a header word that names its type and gives
//! its storage size in words, the header included.
use vstd::prelude::*;
use crate::fail::RtErr;
use crate::heap::{fresh_block, Heap};
use crate::term::{kind_of_word, Term, TermKind, HEADER_SIZE_LIMIT};

verus! {

pub const BOXTYPETAG_TUPLE: u64 = 0;

pub const BOXTYPETAG_BIGINTEGER: u64 = 1;

pub const BOXTYPETAG_EXTERNALPID: u64 = 2;

pub const BOXTYPETAG_EXTERNALREF: u64 = 3;

pub const BOXTYPETAG_EXTERNALPORT: u64 = 4;

pub const BOXTYPETAG_CLOSURE: u64 = 5;

pub const BOXTYPETAG_FLOAT: u64 = 6;

pub const BOXTYPETAG_IMPORT: u64 = 7;

pub const BOXTYPETAG_EXPORT: u64 = 8;

pub const BOXTYPETAG_BINARY: u64 = 10;

pub const BOXTYPETAG_JUMP_TABLE: u64 = 15;

/// The header word of a block of type `boxtype` that takes `size` words.
pub open spec fn header_word(boxtype: u64, size: u64) -> u64
    recommends
        boxtype < 16,
        size < HEADER_SIZE_LIMIT,
{
    ((size * 16 + boxtype) * 4) as u64
}

/// A block as it is allocated: its header, then filler.
pub open spec fn empty_block(boxtype: u64, size: u64) -> Seq<u64> {
    seq![header_word(boxtype, size)] + fresh_block((size - 1) as nat, false)
}

/// Whether a block of type `boxtype` begins at offset `p` and lies within
/// the words.
pub open spec fn block_at(words: Seq<u64>, p: int, boxtype: u64) -> bool {
    &&& 0 <= p < words.len()
    &&& kind_of_word(words[p]) is Header
    &&& kind_of_word(words[p])->boxtype == boxtype
    &&& 1 <= block_size(words, p)
    &&& p + block_size(words, p) <= words.len()
}

/// The storage size that the header at `p` announces.
pub open spec fn block_size(words: Seq<u64>, p: int) -> nat {
    kind_of_word(words[p])->size
}

/// Whether a heap that holds `used` words and may hold `limit` has room for
/// a block of `n_words` words: the block ends under the limit, and within
/// the words that a header and a pointer can describe.
pub open spec fn room_for(used: nat, limit: nat, n_words: nat) -> bool {
    &&& used + n_words <= limit
    &&& used + n_words < HEADER_SIZE_LIMIT
}

/// Whether a block of `n_words` words can be allocated on the heap.
pub open spec fn block_fits(hp: Heap, n_words: nat) -> bool {
    room_for(hp@.len(), hp.limit(), n_words)
}

/// A block stays where it is when the heap grows: what holds of a block in
/// the words holds of it in any extension of them.
pub proof fn lemma_block_stable(words: Seq<u64>, longer: Seq<u64>, p: int, boxtype: u64)
    requires
        block_at(words, p, boxtype),
        words.len() <= longer.len(),
        longer.subrange(0, words.len() as int) == words,
    ensures
        block_at(longer, p, boxtype),
        block_size(longer, p) == block_size(words, p),
        forall|i: int| p <= i < p + block_size(words, p) ==> longer[i] == words[i],
{
    assert forall|i: int| 0 <= i < words.len() implies longer[i] == words[i] by {
        assert(longer.subrange(0, words.len() as int)[i] == longer[i]);
    }
}

/// Allocates a block of `n_words` words, the header included, writes the
/// header, and returns the block's offset.  The words after the header hold
/// the heap's filler.  Fails, and changes nothing, exactly when the block
/// does not fit.
pub fn alloc_block(hp: &mut Heap, boxtype: u64, n_words: usize) -> (r: Result<usize, RtErr>)
    requires
        boxtype < 16,
        n_words >= 1,
    ensures
        final(hp).limit() == old(hp).limit(),
        block_fits(*old(hp), n_words as nat) ==> {
            &&& r matches Ok(p)
            &&& p == old(hp)@.len()
            &&& final(hp)@ == old(hp)@ + empty_block(boxtype, n_words as u64)
            &&& block_at(final(hp)@, old(hp)@.len() as int, boxtype)
            &&& block_size(final(hp)@, old(hp)@.len() as int) == n_words
        },
        !block_fits(*old(hp), n_words as nat) ==> {
            &&& r == Err::<usize, RtErr>(RtErr::HeapOutOfMemory)
            &&& final(hp)@ == old(hp)@
        },
{
    let used: usize = hp.allocated();
    if n_words as u64 >= HEADER_SIZE_LIMIT || used as u64 >= HEADER_SIZE_LIMIT - n_words as u64 {
        return Err(RtErr::HeapOutOfMemory);
    }
    let ghost before = hp@;
    match hp.alloc_words(n_words, false) {
        Ok(p) => {
            let header = Term::make_header(boxtype, n_words as u64);
            hp.set(p, header.raw());
            proof {
                assert(header.value == header_word(boxtype, n_words as u64));
                let image = empty_block(boxtype, n_words as u64);
                assert(image.len() == n_words);
                assert forall|i: int| 0 <= i < hp@.len() implies hp@[i] == (before + image)[i] by {
                    if i > p {
                        assert(image[i - p] == fresh_block((n_words - 1) as nat, false)[i - p - 1]);
                    }
                }
                assert(hp@ =~= before + image);
                assert(hp@[p as int] == header.value);
                assert(kind_of_word(hp@[p as int]) == header@);
            }
            Ok(p)
        },
        Err(e) => Err(RtErr::HeapOutOfMemory),
    }
}

/// The offset of the block of type `boxtype` that `t` points to, if it
/// points to one.
pub fn boxed_of_type(hp: &Heap, t: Term, boxtype: u64) -> (r: Option<usize>)
    ensures
        r is Some <==> t@ is Boxed && block_at(hp@, t@->Boxed_0 as int, boxtype),
        r is Some ==> r->Some_0 == t@->Boxed_0,
{
    if !t.is_boxed() {
        return None;
    }
    let offset: u64 = t.get_box_offset();
    let n: usize = hp.allocated();
    if offset >= n as u64 {
        return None;
    }
    let p: usize = offset as usize;
    let header = Term::from_raw(hp.get(p));
    if !header.is_header() {
        return None;
    }
    if header.header_boxtype() != boxtype {
        return None;
    }
    let size: u64 = header.header_size();
    if size < 1 || size > (n - p) as u64 {
        return None;
    }
    Some(p)
}

} // verus!
