//! Literals: terms in the external term format, as the literal table holds
//! them.
//!
//! A literal is the version byte 131 and one term.  The loader reads
//! integers, atoms, nil, tuples, lists and strings; a literal with a term of
//! any other kind is refused.
//!
//! ```text
//! 97  value:u8                     small integer
//! 98  value:i32                    integer
//! 100 length:u16 name              atom          118 the same, name in UTF-8
//! 115 length:u8  name              atom          119 the same, name in UTF-8
//! 104 arity:u8   term*             tuple
//! 105 arity:u32  term*             tuple
//! 106                              nil
//! 107 length:u16 byte*             string: the list of the bytes
//! 108 length:u32 term* tail        list
//! 110 length:u8  sign:u8 byte*     integer, least significant byte first
//! ```
//!
//! A list is a chain of cells of two words, head and tail, one behind the
//! other on the heap.
use vstd::prelude::*;
use crate::atom::{
    distinct, grows_from, interned_index, interned_table, knows, lemma_interned, AtomTable,
};
use crate::beam_file::{copy_range, u32_be_at};
use crate::arith::number_term;
use crate::bin_reader::be_value;
use crate::boxed::room_for;
use crate::compact_term::{extends, lemma_extends_trans};
use crate::container::u32_at;
use crate::fail::{ExceptionClass, ExceptionReason, Fault, ModuleFault, RtErr};
use crate::heap::{fresh_block, Heap, HEAP_FILLER};
use crate::number::{integer_image, lemma_short_limbs, Number};
use crate::loader::{lemma_grows_self, lemma_grows_trans};
use crate::term::{
    small_fits_spec, word_of_kind, Term, TermKind, HEADER_SIZE_LIMIT, SPECIAL_LIMIT,
};
use crate::tuple::{tuple_image, Tuple};

verus! {

pub const ETF_VERSION: u8 = 131;

pub const SMALL_INTEGER_EXT: u8 = 97;

pub const INTEGER_EXT: u8 = 98;

pub const ATOM_EXT: u8 = 100;

pub const SMALL_TUPLE_EXT: u8 = 104;

pub const LARGE_TUPLE_EXT: u8 = 105;

pub const NIL_EXT: u8 = 106;

pub const STRING_EXT: u8 = 107;

pub const LIST_EXT: u8 = 108;

pub const SMALL_BIG_EXT: u8 = 110;

pub const SMALL_ATOM_EXT: u8 = 115;

pub const ATOM_UTF8_EXT: u8 = 118;

pub const SMALL_ATOM_UTF8_EXT: u8 = 119;

/// What reading a term gives: the word of the term, the position behind
/// it, the words that it adds to the heap and the atom table with its atoms
/// interned; or a fault.
pub enum EtfRead {
    Done { word: u64, next: int, added: Seq<u64>, table: Seq<Seq<u8>> },
    Fail(Fault),
}

/// The fault of bytes that end within a term.
pub open spec fn short_fault() -> Fault {
    Fault::MalformedModule(ModuleFault::ShortChunk)
}

/// The fault of a term of a kind that the loader does not read.
pub open spec fn kind_fault() -> Fault {
    Fault::MalformedModule(ModuleFault::BadLiterals)
}

/// The number that four bytes at `pos` stand for in two's complement.
pub open spec fn i32_at(bytes: Seq<u8>, pos: int) -> int {
    if u32_at(bytes, pos) >= 0x8000_0000 {
        u32_at(bytes, pos) - 0x1_0000_0000
    } else {
        u32_at(bytes, pos)
    }
}

/// The atom whose name is the `len` bytes at `pos`.  Fails with
/// `system_limit` where the name is new and the table is full.
pub open spec fn etf_atom(bytes: Seq<u8>, pos: int, len: int, table: Seq<Seq<u8>>) -> EtfRead {
    if pos + len > bytes.len() {
        EtfRead::Fail(short_fault())
    } else if !knows(table, bytes.subrange(pos, pos + len)) && table.len() >= SPECIAL_LIMIT {
        EtfRead::Fail(Fault::Exception(ExceptionClass::Error, ExceptionReason::SystemLimit))
    } else {
        EtfRead::Done {
            word: word_of_kind(
                TermKind::Atom(interned_index(table, bytes.subrange(pos, pos + len)) as nat),
            ),
            next: pos + len,
            added: Seq::<u64>::empty(),
            table: interned_table(table, bytes.subrange(pos, pos + len)),
        }
    }
}

/// The cells of a list of `n` elements at offset `base`, before the
/// elements are there: every tail but the last points to the next cell.
pub open spec fn cons_chain(base: nat, n: nat) -> Seq<u64> {
    Seq::new(
        2 * n,
        |j: int|
            if j % 2 == 1 && j < 2 * n - 1 {
                word_of_kind(TermKind::Cons((base + j + 1) as nat))
            } else {
                HEAP_FILLER
            },
    )
}

/// The cells of the list of these bytes at offset `base`.
pub open spec fn string_cells(base: nat, bytes: Seq<u8>) -> Seq<u64> {
    Seq::new(
        2 * bytes.len(),
        |j: int|
            if j % 2 == 0 {
                word_of_kind(TermKind::Small(bytes[j / 2] as int))
            } else if j < 2 * bytes.len() - 1 {
                word_of_kind(TermKind::Cons((base + j + 1) as nat))
            } else {
                word_of_kind(TermKind::Nil)
            },
    )
}

/// The place, within the block of a tuple or of a list, of the `i`-th term
/// that is read into it.  A tuple takes its elements behind its two first
/// words.  A list of `count` cells takes its elements at the heads, and one
/// term more, its tail, at the tail of the last cell.
pub open spec fn slot_of(list: bool, i: nat, count: nat) -> int {
    if !list {
        2 + i as int
    } else if i < count {
        2 * i as int
    } else {
        2 * count - 1
    }
}

/// The word of a tuple or of a list at offset `base`.
pub open spec fn block_word(list: bool, base: nat) -> u64 {
    if list {
        word_of_kind(TermKind::Cons(base))
    } else {
        word_of_kind(TermKind::Boxed(base))
    }
}

/// The integer `v` as a term: a small integer where it fits, else a bignum
/// at the end of the heap.
pub open spec fn etf_integer(v: int, next: int, used: nat, limit: nat, table: Seq<Seq<u8>>) -> EtfRead {
    if small_fits_spec(v) {
        EtfRead::Done {
            word: word_of_kind(TermKind::Small(v)),
            next,
            added: Seq::<u64>::empty(),
            table,
        }
    } else if room_for(used, limit, integer_image(v).len()) {
        EtfRead::Done {
            word: word_of_kind(TermKind::Boxed(used)),
            next,
            added: integer_image(v),
            table,
        }
    } else {
        EtfRead::Fail(Fault::HeapOutOfMemory)
    }
}

/// The integer in the `n` bytes at `pos`, least significant byte first,
/// negative where `sign` is not zero.
pub open spec fn le_integer(bytes: Seq<u8>, pos: int, n: int, sign: u8) -> int {
    if sign != 0 {
        -(be_value(bytes.subrange(pos, pos + n).reverse()) as int)
    } else {
        be_value(bytes.subrange(pos, pos + n).reverse()) as int
    }
}

/// The term at `pos`, read onto a heap that holds `used` words and may hold
/// `limit`.
pub open spec fn etf_term(
    bytes: Seq<u8>,
    pos: int,
    used: nat,
    limit: nat,
    table: Seq<Seq<u8>>,
) -> EtfRead
    decreases bytes.len() - pos, 0nat, 0nat,
{
    if pos < 0 || pos >= bytes.len() {
        EtfRead::Fail(short_fault())
    } else if bytes[pos] == SMALL_INTEGER_EXT {
        if pos + 2 > bytes.len() {
            EtfRead::Fail(short_fault())
        } else {
            EtfRead::Done {
                word: word_of_kind(TermKind::Small(bytes[pos + 1] as int)),
                next: pos + 2,
                added: Seq::<u64>::empty(),
                table,
            }
        }
    } else if bytes[pos] == INTEGER_EXT {
        if pos + 5 > bytes.len() {
            EtfRead::Fail(short_fault())
        } else {
            EtfRead::Done {
                word: word_of_kind(TermKind::Small(i32_at(bytes, pos + 1))),
                next: pos + 5,
                added: Seq::<u64>::empty(),
                table,
            }
        }
    } else if bytes[pos] == SMALL_BIG_EXT {
        if pos + 3 > bytes.len() || pos + 3 + bytes[pos + 1] > bytes.len() {
            EtfRead::Fail(short_fault())
        } else {
            etf_integer(
                le_integer(bytes, pos + 3, bytes[pos + 1] as int, bytes[pos + 2]),
                pos + 3 + bytes[pos + 1],
                used,
                limit,
                table,
            )
        }
    } else if bytes[pos] == NIL_EXT {
        EtfRead::Done {
            word: word_of_kind(TermKind::Nil),
            next: pos + 1,
            added: Seq::<u64>::empty(),
            table,
        }
    } else if bytes[pos] == SMALL_ATOM_EXT || bytes[pos] == SMALL_ATOM_UTF8_EXT {
        if pos + 2 > bytes.len() {
            EtfRead::Fail(short_fault())
        } else {
            etf_atom(bytes, pos + 2, bytes[pos + 1] as int, table)
        }
    } else if bytes[pos] == ATOM_EXT || bytes[pos] == ATOM_UTF8_EXT {
        if pos + 3 > bytes.len() {
            EtfRead::Fail(short_fault())
        } else {
            etf_atom(bytes, pos + 3, bytes[pos + 1] * 256 + bytes[pos + 2], table)
        }
    } else if bytes[pos] == STRING_EXT {
        if pos + 3 > bytes.len() || pos + 3 + bytes[pos + 1] * 256 + bytes[pos + 2] > bytes.len() {
            EtfRead::Fail(short_fault())
        } else if bytes[pos + 1] * 256 + bytes[pos + 2] == 0 {
            EtfRead::Done {
                word: word_of_kind(TermKind::Nil),
                next: pos + 3,
                added: Seq::<u64>::empty(),
                table,
            }
        } else if !room_for(used, limit, (2 * (bytes[pos + 1] * 256 + bytes[pos + 2])) as nat) {
            EtfRead::Fail(Fault::HeapOutOfMemory)
        } else {
            EtfRead::Done {
                word: word_of_kind(TermKind::Cons(used)),
                next: pos + 3 + bytes[pos + 1] * 256 + bytes[pos + 2],
                added: string_cells(
                    used,
                    bytes.subrange(pos + 3, pos + 3 + bytes[pos + 1] * 256 + bytes[pos + 2]),
                ),
                table,
            }
        }
    } else if bytes[pos] == SMALL_TUPLE_EXT {
        if pos + 2 > bytes.len() {
            EtfRead::Fail(short_fault())
        } else if !room_for(used, limit, (2 + bytes[pos + 1]) as nat) {
            EtfRead::Fail(Fault::HeapOutOfMemory)
        } else {
            etf_fill(
                bytes,
                pos + 2,
                limit,
                used,
                tuple_image(bytes[pos + 1] as nat),
                0,
                bytes[pos + 1] as nat,
                false,
                bytes[pos + 1] as nat,
                table,
            )
        }
    } else if bytes[pos] == LARGE_TUPLE_EXT {
        if pos + 5 > bytes.len() {
            EtfRead::Fail(short_fault())
        } else if !room_for(used, limit, (2 + u32_at(bytes, pos + 1)) as nat) {
            EtfRead::Fail(Fault::HeapOutOfMemory)
        } else {
            etf_fill(
                bytes,
                pos + 5,
                limit,
                used,
                tuple_image(u32_at(bytes, pos + 1) as nat),
                0,
                u32_at(bytes, pos + 1) as nat,
                false,
                u32_at(bytes, pos + 1) as nat,
                table,
            )
        }
    } else if bytes[pos] == LIST_EXT {
        if pos + 5 > bytes.len() {
            EtfRead::Fail(short_fault())
        } else if u32_at(bytes, pos + 1) == 0 {
            etf_term(bytes, pos + 5, used, limit, table)
        } else if !room_for(used, limit, (2 * u32_at(bytes, pos + 1)) as nat) {
            EtfRead::Fail(Fault::HeapOutOfMemory)
        } else {
            etf_fill(
                bytes,
                pos + 5,
                limit,
                used,
                cons_chain(used, u32_at(bytes, pos + 1) as nat),
                0,
                (u32_at(bytes, pos + 1) + 1) as nat,
                true,
                u32_at(bytes, pos + 1) as nat,
                table,
            )
        }
    } else {
        EtfRead::Fail(kind_fault())
    }
}

/// The tuple or the list at offset `base` with the terms from `i` on read
/// from `pos` on, `n` terms in all.  `block` holds the words from `base` on:
/// the tuple or the cells of the list, and behind them what the terms
/// before have added.
pub open spec fn etf_fill(
    bytes: Seq<u8>,
    pos: int,
    limit: nat,
    base: nat,
    block: Seq<u64>,
    i: nat,
    n: nat,
    list: bool,
    count: nat,
    table: Seq<Seq<u8>>,
) -> EtfRead
    decreases bytes.len() - pos, 1nat, n - i,
{
    if i >= n {
        EtfRead::Done { word: block_word(list, base), next: pos, added: block, table }
    } else if pos < 0 || pos >= bytes.len() {
        EtfRead::Fail(short_fault())
    } else {
        match etf_term(bytes, pos, base + block.len(), limit, table) {
            EtfRead::Fail(f) => EtfRead::Fail(f),
            EtfRead::Done { word, next, added, table: known } => if next <= pos || next
                > bytes.len() {
                EtfRead::Fail(short_fault())
            } else {
                etf_fill(
                    bytes,
                    next,
                    limit,
                    base,
                    (block + added).update(slot_of(list, i, count), word),
                    i + 1,
                    n,
                    list,
                    count,
                    known,
                )
            },
        }
    }
}

/// The literal that the bytes hold: the version byte, then a term.
pub open spec fn etf_literal(bytes: Seq<u8>, used: nat, limit: nat, table: Seq<Seq<u8>>) -> EtfRead {
    if bytes.len() < 1 {
        EtfRead::Fail(short_fault())
    } else if bytes[0] != ETF_VERSION {
        EtfRead::Fail(kind_fault())
    } else {
        etf_term(bytes, 1, used, limit, table)
    }
}

/// The kinds of term that a literal is read as.
pub open spec fn literal_kind(k: TermKind) -> bool {
    k is Small || k is Nil || k is Atom || k is Boxed || k is Cons
}

/// Whether `r`, the heap and the atom table after the call are what `read`
/// says.  Whatever the outcome, the heap and the table only grow.
pub open spec fn gives_etf(
    read: EtfRead,
    heap_before: Heap,
    atoms_before: AtomTable,
    r: Result<(Term, usize), RtErr>,
    heap_after: Heap,
    atoms_after: AtomTable,
) -> bool {
    &&& heap_after.limit() == heap_before.limit()
    &&& extends(heap_after@, heap_before@)
    &&& atoms_after.wf()
    &&& grows_from(atoms_after@, atoms_before@)
    &&& match read {
        EtfRead::Done { word, next, added, table } => {
            &&& r matches Ok(pair)
            &&& pair.0.value == word
            &&& literal_kind(pair.0@)
            &&& pair.1 == next
            &&& heap_after@ == heap_before@ + added
            &&& atoms_after@ == table
        },
        EtfRead::Fail(f) => {
            &&& r matches Err(e)
            &&& e@ == f
        },
    }
}

/// Reads the atom whose name is the `len` bytes at `pos`.
fn decode_atom(bytes: &[u8], pos: usize, len: usize, hp: &Heap, atoms: &mut AtomTable) -> (r:
    Result<(Term, usize), RtErr>)
    requires
        old(atoms).wf(),
        pos <= bytes@.len(),
    ensures
        gives_etf(
            etf_atom(bytes@, pos as int, len as int, old(atoms)@),
            *hp,
            *old(atoms),
            r,
            *hp,
            *final(atoms),
        ),
{
    let total: usize = bytes.len();
    proof {
        lemma_grows_self(atoms@);
        assert(hp@.subrange(0, hp@.len() as int) =~= hp@);
        assert(hp@ + Seq::<u64>::empty() =~= hp@);
    }
    if len > total - pos {
        return Err(RtErr::MalformedModule(ModuleFault::ShortChunk));
    }
    let name = copy_range(bytes, pos, pos + len);
    proof {
        lemma_interned(atoms@, name@);
    }
    match atoms.intern(name.as_slice()) {
        Ok(t) => Ok((t, pos + len)),
        Err(e) => Err(e),
    }
}

/// The term of the integer in the `n` bytes at `pos`, least significant
/// byte first.
fn decode_big(bytes: &[u8], pos: usize, n: usize, sign: u8, hp: &mut Heap, atoms: &AtomTable) -> (r:
    Result<(Term, usize), RtErr>)
    requires
        atoms.wf(),
        pos + n <= bytes@.len(),
    ensures
        gives_etf(
            etf_integer(
                le_integer(bytes@, pos as int, n as int, sign),
                pos + n,
                old(hp)@.len(),
                old(hp).limit(),
                atoms@,
            ),
            *old(hp),
            *atoms,
            r,
            *final(hp),
            *atoms,
        ),
{
    let total: usize = bytes.len();
    proof {
        lemma_grows_self(atoms@);
        assert(hp@.subrange(0, hp@.len() as int) =~= hp@);
        assert(hp@ + Seq::<u64>::empty() =~= hp@);
    }
    let ghost window = bytes@.subrange(pos as int, pos + n);
    let mut reversed: Vec<u8> = Vec::new();
    let mut k: usize = 0;
    while k < n
        invariant
            k <= n,
            pos + n <= total,
            total == bytes@.len(),
            window == bytes@.subrange(pos as int, pos + n),
            reversed@.len() == k,
            forall|j: int| 0 <= j < k ==> reversed@[j] == window[n - 1 - j],
        decreases n - k,
    {
        reversed.push(bytes[pos + n - 1 - k]);
        k += 1;
    }
    assert(reversed@ =~= window.reverse());
    let mut number: Number = if n == 0 {
        assert(be_value(reversed@) == 0);
        Number::from_u64(0)
    } else {
        assert(reversed@.subrange(0, n as int) =~= reversed@);
        Number::from_be_bytes(reversed.as_slice(), 0, n, false)
    };
    number.negative = sign != 0 && number.limbs.len() > 0;
    proof {
        lemma_short_limbs(number.limbs@);
    }
    let ghost before = hp@;
    let made = number_term(hp, &number);
    assert(hp@.subrange(0, before.len() as int) =~= before);
    match made {
        Ok(t) => Ok((t, pos + n)),
        Err(e) => Err(RtErr::HeapOutOfMemory),
    }
}

/// Writes the cells of a list of `n` elements at the end of the heap, every
/// tail but the last pointing to the next cell.
fn alloc_chain(hp: &mut Heap, n: usize) -> (r: Option<usize>)
    requires
        n > 0,
    ensures
        final(hp).limit() == old(hp).limit(),
        room_for(old(hp)@.len(), old(hp).limit(), 2 * n as nat) ==> {
            &&& r matches Some(base)
            &&& base == old(hp)@.len()
            &&& final(hp)@ == old(hp)@ + cons_chain(old(hp)@.len(), n as nat)
            &&& final(hp)@.len() < HEADER_SIZE_LIMIT
        },
        !room_for(old(hp)@.len(), old(hp).limit(), 2 * n as nat) ==> r.is_none() && final(hp)@
            == old(hp)@,
{
    let used: usize = hp.allocated();
    let room: usize = hp.remaining();
    if n > room / 2 || used as u64 >= HEADER_SIZE_LIMIT || (2 * n) as u64 >= HEADER_SIZE_LIMIT
        - used as u64 {
        return None;
    }
    let ghost before = hp@;
    let base: usize = match hp.alloc_words(2 * n, false) {
        Ok(p) => p,
        Err(e) => {
            return None;
        },
    };
    proof {
        hp.lemma_len_bound();
        assert(fresh_block((2 * n) as nat, false).len() == 2 * n);
    }
    let mut i: usize = 0;
    while i + 1 < n
        invariant
            i < n,
            base == before.len(),
            base + 2 * n < HEADER_SIZE_LIMIT,
            hp@.len() == base + 2 * n,
            hp@.len() <= usize::MAX,
            hp.limit() == old(hp).limit(),
            hp@.subrange(0, base as int) == before,
            forall|k: int|
                base <= k < base + 2 * n ==> #[trigger] hp@[k] == (if (k - base) % 2 == 1 && k
                    - base < 2 * i {
                    word_of_kind(TermKind::Cons((k + 1) as nat))
                } else {
                    HEAP_FILLER
                }),
        decreases n - i,
    {
        hp.set(base + 2 * i + 1, Term::make_cons((base + 2 * i + 2) as u64).raw());
        i += 1;
    }
    proof {
        assert(hp@ =~= before + cons_chain(before.len(), n as nat)) by {
            assert forall|k: int| 0 <= k < hp@.len() implies hp@[k] == (before + cons_chain(
                before.len(),
                n as nat,
            ))[k] by {
                if k < base {
                    assert(hp@.subrange(0, base as int)[k] == hp@[k]);
                }
            }
        }
    }
    Some(base)
}

/// Writes the list of the `n` bytes at `pos` at the end of the heap.
fn decode_string(bytes: &[u8], pos: usize, n: usize, hp: &mut Heap) -> (r: Option<usize>)
    requires
        n > 0,
        pos + n <= bytes@.len(),
    ensures
        final(hp).limit() == old(hp).limit(),
        room_for(old(hp)@.len(), old(hp).limit(), 2 * n as nat) ==> {
            &&& r matches Some(base)
            &&& base == old(hp)@.len()
            &&& final(hp)@ == old(hp)@ + string_cells(
                old(hp)@.len(),
                bytes@.subrange(pos as int, pos + n),
            )
            &&& final(hp)@.len() < HEADER_SIZE_LIMIT
        },
        !room_for(old(hp)@.len(), old(hp).limit(), 2 * n as nat) ==> r.is_none() && final(hp)@
            == old(hp)@,
{
    let total: usize = bytes.len();
    let ghost before = hp@;
    let ghost window = bytes@.subrange(pos as int, pos + n);
    let base: usize = match alloc_chain(hp, n) {
        Some(base) => base,
        None => {
            return None;
        },
    };
    proof {
        hp.lemma_len_bound();
    }
    let ghost chain = cons_chain(before.len(), n as nat);
    let mut i: usize = 0;
    while i < n
        invariant
            i <= n,
            n > 0,
            pos + n <= total,
            total == bytes@.len(),
            window == bytes@.subrange(pos as int, pos + n),
            base == before.len(),
            hp@.len() == base + 2 * n,
            hp@.len() <= usize::MAX,
            hp.limit() == old(hp).limit(),
            hp@.subrange(0, base as int) == before,
            forall|k: int|
                base <= k < base + 2 * n ==> #[trigger] hp@[k] == (if (k - base) % 2 == 0 && k
                    - base < 2 * i {
                    word_of_kind(TermKind::Small(window[(k - base) / 2] as int))
                } else {
                    cons_chain(before.len(), n as nat)[k - base]
                }),
        decreases n - i,
    {
        hp.set(base + 2 * i, Term::make_small_unsigned(bytes[pos + i] as u64).raw());
        i += 1;
    }
    hp.set(base + 2 * n - 1, Term::nil().raw());
    proof {
        assert(hp@ =~= before + string_cells(before.len(), window)) by {
            assert forall|k: int| 0 <= k < hp@.len() implies hp@[k] == (before + string_cells(
                before.len(),
                window,
            ))[k] by {
                if k < base {
                    assert(hp@.subrange(0, base as int)[k] == hp@[k]);
                }
            }
        }
    }
    Some(base)
}

/// Reads the term at `pos`.
fn decode_term(bytes: &[u8], pos: usize, hp: &mut Heap, atoms: &mut AtomTable) -> (r: Result<
    (Term, usize),
    RtErr,
>)
    requires
        old(atoms).wf(),
    ensures
        gives_etf(
            etf_term(bytes@, pos as int, old(hp)@.len(), old(hp).limit(), old(atoms)@),
            *old(hp),
            *old(atoms),
            r,
            *final(hp),
            *final(atoms),
        ),
    decreases bytes@.len() - pos, 0nat,
{
    let total: usize = bytes.len();
    proof {
        lemma_grows_self(atoms@);
        assert(hp@.subrange(0, hp@.len() as int) =~= hp@);
        assert(hp@ + Seq::<u64>::empty() =~= hp@);
    }
    if pos >= total {
        return Err(RtErr::MalformedModule(ModuleFault::ShortChunk));
    }
    let tag: u8 = bytes[pos];
    if tag == SMALL_INTEGER_EXT {
        if total - pos < 2 {
            return Err(RtErr::MalformedModule(ModuleFault::ShortChunk));
        }
        Ok((Term::make_small_unsigned(bytes[pos + 1] as u64), pos + 2))
    } else if tag == INTEGER_EXT {
        if total - pos < 5 {
            return Err(RtErr::MalformedModule(ModuleFault::ShortChunk));
        }
        let u: u32 = u32_be_at(bytes, pos + 1);
        let v: i64 = if u >= 0x8000_0000 {
            u as i64 - 0x1_0000_0000
        } else {
            u as i64
        };
        Ok((Term::make_small_signed(v), pos + 5))
    } else if tag == SMALL_BIG_EXT {
        if total - pos < 3 || bytes[pos + 1] as usize > total - pos - 3 {
            return Err(RtErr::MalformedModule(ModuleFault::ShortChunk));
        }
        decode_big(bytes, pos + 3, bytes[pos + 1] as usize, bytes[pos + 2], hp, atoms)
    } else if tag == NIL_EXT {
        Ok((Term::nil(), pos + 1))
    } else if tag == SMALL_ATOM_EXT || tag == SMALL_ATOM_UTF8_EXT {
        if total - pos < 2 {
            return Err(RtErr::MalformedModule(ModuleFault::ShortChunk));
        }
        decode_atom(bytes, pos + 2, bytes[pos + 1] as usize, hp, atoms)
    } else if tag == ATOM_EXT || tag == ATOM_UTF8_EXT {
        if total - pos < 3 {
            return Err(RtErr::MalformedModule(ModuleFault::ShortChunk));
        }
        decode_atom(
            bytes,
            pos + 3,
            bytes[pos + 1] as usize * 256 + bytes[pos + 2] as usize,
            hp,
            atoms,
        )
    } else if tag == STRING_EXT {
        if total - pos < 3 {
            return Err(RtErr::MalformedModule(ModuleFault::ShortChunk));
        }
        let n: usize = bytes[pos + 1] as usize * 256 + bytes[pos + 2] as usize;
        if n > total - pos - 3 {
            return Err(RtErr::MalformedModule(ModuleFault::ShortChunk));
        }
        if n == 0 {
            return Ok((Term::nil(), pos + 3));
        }
        let ghost before = hp@;
        match decode_string(bytes, pos + 3, n, hp) {
            Some(base) => {
                assert(hp@.subrange(0, before.len() as int) =~= before);
                Ok((Term::make_cons(base as u64), pos + 3 + n))
            },
            None => Err(RtErr::HeapOutOfMemory),
        }
    } else if tag == SMALL_TUPLE_EXT || tag == LARGE_TUPLE_EXT || tag == LIST_EXT {
        let list: bool = tag == LIST_EXT;
        let (count, first): (usize, usize) = if tag == SMALL_TUPLE_EXT {
            if total - pos < 2 {
                return Err(RtErr::MalformedModule(ModuleFault::ShortChunk));
            }
            (bytes[pos + 1] as usize, pos + 2)
        } else {
            if total - pos < 5 {
                return Err(RtErr::MalformedModule(ModuleFault::ShortChunk));
            }
            (u32_be_at(bytes, pos + 1) as usize, pos + 5)
        };
        if list && count == 0 {
            return decode_term(bytes, first, hp, atoms);
        }
        let ghost start = hp@;
        let base: usize = if list {
            match alloc_chain(hp, count) {
                Some(p) => p,
                None => {
                    return Err(RtErr::HeapOutOfMemory);
                },
            }
        } else {
            match Tuple::create_into(hp, count) {
                Ok(p) => p,
                Err(e) => {
                    return Err(RtErr::HeapOutOfMemory);
                },
            }
        };
        let ghost block = if list {
            cons_chain(start.len(), count as nat)
        } else {
            tuple_image(count as nat)
        };
        proof {
            hp.lemma_len_bound();
        }
        match fill_block(bytes, first, hp, atoms, base, count, list, Ghost(start), Ghost(block)) {
            Ok(next) => {
                proof {
                    hp.lemma_len_bound();
                }
                if list {
                    Ok((Term::make_cons(base as u64), next))
                } else {
                    Ok((Term::make_boxed(base as u64), next))
                }
            },
            Err(e) => Err(e),
        }
    } else {
        Err(RtErr::MalformedModule(ModuleFault::BadLiterals))
    }
}

/// Reads the terms of a tuple or of a list into its block at `base`, which
/// is at the end of the heap.  Returns the position behind the terms.
fn fill_block(
    bytes: &[u8],
    first: usize,
    hp: &mut Heap,
    atoms: &mut AtomTable,
    base: usize,
    count: usize,
    list: bool,
    Ghost(start): Ghost<Seq<u64>>,
    Ghost(block0): Ghost<Seq<u64>>,
) -> (r: Result<usize, RtErr>)
    requires
        old(atoms).wf(),
        first <= bytes@.len(),
        base == start.len(),
        base < HEADER_SIZE_LIMIT,
        old(hp)@ == start + block0,
        list ==> count > 0 && block0.len() == 2 * count,
        !list ==> block0.len() == count + 2,
    ensures
        final(hp).limit() == old(hp).limit(),
        extends(final(hp)@, start),
        final(atoms).wf(),
        grows_from(final(atoms)@, old(atoms)@),
        match etf_fill(
            bytes@,
            first as int,
            old(hp).limit(),
            base as nat,
            block0,
            0,
            (if list {
                count + 1
            } else {
                count as int
            }) as nat,
            list,
            count as nat,
            old(atoms)@,
        ) {
            EtfRead::Done { word, next, added, table } => {
                &&& r matches Ok(behind)
                &&& behind == next
                &&& word == block_word(list, base as nat)
                &&& final(hp)@ == start + added
                &&& final(atoms)@ == table
            },
            EtfRead::Fail(f) => {
                &&& r matches Err(e)
                &&& e@ == f
            },
        },
    decreases bytes@.len() - first, 1nat,
{
    let total: usize = bytes.len();
    let ghost limit = hp.limit();
    proof {
        hp.lemma_len_bound();
        lemma_grows_self(atoms@);
    }
    let n: usize = if list {
        count + 1
    } else {
        count
    };
    let ghost mut block = block0;
    let ghost whole = etf_fill(
        bytes@,
        first as int,
        limit,
        base as nat,
        block0,
        0,
        n as nat,
        list,
        count as nat,
        atoms@,
    );
    assert(extends(hp@, start)) by {
        assert(hp@.subrange(0, start.len() as int) =~= start);
    }
    let mut at: usize = first;
    let mut i: usize = 0;
    while i < n
        invariant
            i <= n,
            n == (if list {
                count + 1
            } else {
                count as int
            }),
            list ==> count > 0,
            first <= at <= total,
            total == bytes@.len(),
            base == start.len(),
            hp.limit() == limit,
            limit == old(hp).limit(),
            atoms.wf(),
            grows_from(atoms@, old(atoms)@),
            hp@ == start + block,
            extends(hp@, start),
            block.len() >= (if list {
                2 * count
            } else {
                count + 2
            }),
            etf_fill(
                bytes@,
                at as int,
                limit,
                base as nat,
                block,
                i as nat,
                n as nat,
                list,
                count as nat,
                atoms@,
            ) == whole,
            whole == etf_fill(
                bytes@,
                first as int,
                old(hp).limit(),
                base as nat,
                block0,
                0,
                n as nat,
                list,
                count as nat,
                old(atoms)@,
            ),
        decreases n - i,
    {
        let ghost before = hp@;
        let ghost table_before = atoms@;
        if at >= total {
            assert(extends(hp@, start)) by {
                assert(hp@.subrange(0, start.len() as int) =~= start);
            }
            return Err(RtErr::MalformedModule(ModuleFault::ShortChunk));
        }
        let (t, next): (Term, usize) = match decode_term(bytes, at, hp, atoms) {
            Ok(pair) => pair,
            Err(e) => {
                proof {
                    assert(extends(before, start)) by {
                        assert(before.subrange(0, start.len() as int) =~= start);
                    }
                    lemma_extends_trans(start, before, hp@);
                    lemma_grows_trans(old(atoms)@, table_before, atoms@);
                }
                return Err(e);
            },
        };
        proof {
            assert(extends(before, start)) by {
                assert(before.subrange(0, start.len() as int) =~= start);
            }
            lemma_extends_trans(start, before, hp@);
            lemma_grows_trans(old(atoms)@, table_before, atoms@);
            hp.lemma_len_bound();
        }
        if next <= at || next > total {
            return Err(RtErr::MalformedModule(ModuleFault::ShortChunk));
        }
        let ghost grown = hp@;
        let slot: usize = if !list {
            2 + i
        } else if i < count {
            2 * i
        } else {
            2 * count - 1
        };
        hp.set(base + slot, t.raw());
        proof {
            let tail = grown.subrange(before.len() as int, grown.len() as int);
            let element = etf_term(bytes@, at as int, before.len(), limit, table_before);
            assert(before.len() == base + block.len());
            assert(tail =~= element->added);
            assert(grown =~= before + tail);
            assert(hp@ =~= start + (block + tail).update(slot as int, t.value));
            assert(extends(hp@, start)) by {
                assert(hp@.subrange(0, start.len() as int) =~= start);
            }
            block = (block + tail).update(slot as int, t.value);
        }
        at = next;
        i += 1;
    }
    Ok(at)
}

/// Reads a literal onto the heap and returns its term.  The atoms in it
/// are interned in the atom table.
pub fn decode(bytes: &[u8], hp: &mut Heap, atoms: &mut AtomTable) -> (r: Result<Term, RtErr>)
    requires
        old(atoms).wf(),
    ensures
        final(hp).limit() == old(hp).limit(),
        extends(final(hp)@, old(hp)@),
        final(atoms).wf(),
        grows_from(final(atoms)@, old(atoms)@),
        match etf_literal(bytes@, old(hp)@.len(), old(hp).limit(), old(atoms)@) {
            EtfRead::Done { word, next, added, table } => {
                &&& r matches Ok(t)
                &&& t.value == word
                &&& literal_kind(t@)
                &&& final(hp)@ == old(hp)@ + added
                &&& final(atoms)@ == table
            },
            EtfRead::Fail(f) => {
                &&& r matches Err(e)
                &&& e@ == f
            },
        },
{
    proof {
        lemma_grows_self(atoms@);
        assert(hp@.subrange(0, hp@.len() as int) =~= hp@);
    }
    if bytes.len() < 1 {
        return Err(RtErr::MalformedModule(ModuleFault::ShortChunk));
    }
    if bytes[0] != ETF_VERSION {
        return Err(RtErr::MalformedModule(ModuleFault::BadLiterals));
    }
    match decode_term(bytes, 1, hp, atoms) {
        Ok(pair) => Ok(pair.0),
        Err(e) => Err(e),
    }
}

} // verus!
