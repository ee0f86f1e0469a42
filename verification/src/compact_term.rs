//! The compact-term encoding: how the code chunk writes its operands.
//!
//! The low three bits of an operand's first byte are its tag.  The other
//! five bits hold the value, or say where the value is:
//!
//! ```text
//! vvvv0ttt                     the value is vvvv
//! vvv01ttt bbbbbbbb            the value is vvv bbbbbbbb
//! nnn11ttt (n + 2 bytes)       the value is in the bytes, most significant first
//! 11111ttt count (c + 9 bytes) the same; count is a literal operand
//! ```
//!
//! The bytes of an integer and of a label are read in two's complement, the
//! bytes of every other tag as a magnitude.  Atom 0 and label 0 are reserved:
//! both stand for nil.  An extended operand (tag 7) says in its second byte
//! what it is.
use vstd::prelude::*;
use vstd::string::StringExecFns;
use crate::arith::number_term;
use crate::bin_reader::{be_value, BinaryReader};
use crate::boxed::{lemma_block_stable, room_for, BOXTYPETAG_JUMP_TABLE};
use crate::jump_table::{jump_table_at, jump_table_count, jump_table_image, JumpTable};
use crate::fail::{CompactTermError, Fault, RtErr, TermFault};
use crate::heap::Heap;
use crate::number::{be_signed, integer_image, Number};
use crate::term::{
    small_fits_spec, word_of_kind, Term, TermKind, HEADER_SIZE_LIMIT,
    LOADTIME_LIMIT, SMALL_MAX, SPECIAL_LT_ATOM, SPECIAL_LT_LABEL, SPECIAL_LT_LITERAL,
    SPECIAL_LT_REGFP, SPECIAL_LT_REGX, SPECIAL_LT_REGY,
};

verus! {

pub const TAG_LITERAL: u8 = 0;

pub const TAG_INTEGER: u8 = 1;

pub const TAG_ATOM: u8 = 2;

pub const TAG_XREG: u8 = 3;

pub const TAG_YREG: u8 = 4;

pub const TAG_LABEL: u8 = 5;

pub const TAG_CHARACTER: u8 = 6;

pub const TAG_EXTENDED: u8 = 7;

/// Second byte of an extended operand: a list of values and labels in turn.
pub const EXT_LIST: u8 = 1;

/// Second byte of an extended operand: a floating-point register.
pub const EXT_FPREG: u8 = 2;

/// Second byte of an extended operand: an allocation list.
pub const EXT_ALLOC_LIST: u8 = 3;

/// Second byte of an extended operand: an index into the literal table.
pub const EXT_LITERAL: u8 = 4;

/// What reading a value gives: the value and the position after it, or the
/// end of the bytes, or bytes that encode no value.
pub enum Scanned {
    Done { value: int, next: int },
    Eof,
    Bad,
}

/// What decoding an operand gives: the kind of the term, the position after
/// the operand and the words that the operand adds to the heap, or a fault.
pub enum Decoded {
    Done { kind: TermKind, next: int, added: Seq<u64> },
    Fail(Fault),
}

/// Whether the bytes of a value with this tag are read in two's complement.
pub open spec fn signed_tag(tag: u8) -> bool {
    tag == TAG_INTEGER || tag == TAG_LABEL
}

/// The fault of an operand with this tag whose size or value is wrong.
pub open spec fn fault_of_tag(tag: u8) -> Fault {
    Fault::CompactTerm(
        if tag == TAG_LITERAL {
            TermFault::BadLiteralTag
        } else if tag == TAG_INTEGER {
            TermFault::BadIntegerTag
        } else if tag == TAG_ATOM {
            TermFault::BadAtomTag
        } else if tag == TAG_XREG {
            TermFault::BadXRegTag
        } else if tag == TAG_YREG {
            TermFault::BadYRegTag
        } else if tag == TAG_LABEL {
            TermFault::BadLabelTag
        } else if tag == TAG_CHARACTER {
            TermFault::BadCharacterTag
        } else {
            TermFault::BadExtendedTag(Seq::<char>::empty())
        },
    )
}

/// The value in the `n` bytes from `start`.
pub open spec fn multi_value(bytes: Seq<u8>, start: int, n: int, signed: bool) -> Scanned {
    if start + n > bytes.len() {
        Scanned::Eof
    } else {
        Scanned::Done {
            value: if signed {
                be_signed(bytes.subrange(start, start + n))
            } else {
                be_value(bytes.subrange(start, start + n)) as int
            },
            next: start + n,
        }
    }
}

/// The value of the operand at `pos`, in one of the three forms that give
/// the byte count in the first byte.
#[verifier::opaque]
pub open spec fn plain_value(bytes: Seq<u8>, pos: int, signed: bool) -> Scanned {
    if pos >= bytes.len() {
        Scanned::Eof
    } else if (bytes[pos] / 8) % 2 == 0 {
        Scanned::Done { value: (bytes[pos] / 16) as int, next: pos + 1 }
    } else if (bytes[pos] / 16) % 2 == 0 {
        if pos + 1 >= bytes.len() {
            Scanned::Eof
        } else {
            Scanned::Done { value: (bytes[pos] / 32) * 256 + bytes[pos + 1], next: pos + 2 }
        }
    } else if bytes[pos] / 32 < 7 {
        multi_value(bytes, pos + 1, bytes[pos] / 32 + 2, signed)
    } else {
        Scanned::Bad
    }
}

/// The value of the operand at `pos`, in any form.  Where the five upper
/// bits of the first byte are all set, a literal operand in a plain form
/// follows, and nine more than its value is the byte count.
#[verifier::opaque]
pub open spec fn sized_value(bytes: Seq<u8>, pos: int, signed: bool) -> Scanned {
    if pos < bytes.len() && bytes[pos] / 8 == 31 {
        if pos + 1 >= bytes.len() {
            Scanned::Eof
        } else if bytes[pos + 1] % 8 != TAG_LITERAL {
            Scanned::Bad
        } else {
            match plain_value(bytes, pos + 1, false) {
                Scanned::Done { value, next } => multi_value(bytes, next, value + 9, signed),
                other => other,
            }
        }
    } else {
        plain_value(bytes, pos, signed)
    }
}

/// The term that a value with a tag other than `TAG_EXTENDED` stands for,
/// on a heap that holds `used` words.  An integer outside the small range
/// becomes a bignum at the end of the heap.
pub open spec fn tagged_term(tag: u8, value: int, next: int, used: nat, limit: nat) -> Decoded {
    if tag == TAG_INTEGER {
        if small_fits_spec(value) {
            Decoded::Done { kind: TermKind::Small(value), next, added: Seq::<u64>::empty() }
        } else if room_for(used, limit, integer_image(value).len()) {
            Decoded::Done { kind: TermKind::Boxed(used), next, added: integer_image(value) }
        } else {
            Decoded::Fail(Fault::HeapOutOfMemory)
        }
    } else if tag == TAG_LITERAL || tag == TAG_CHARACTER {
        if 0 <= value <= SMALL_MAX {
            Decoded::Done { kind: TermKind::Small(value), next, added: Seq::<u64>::empty() }
        } else {
            Decoded::Fail(fault_of_tag(tag))
        }
    } else if (tag == TAG_ATOM || tag == TAG_LABEL) && value == 0 {
        Decoded::Done { kind: TermKind::Nil, next, added: Seq::<u64>::empty() }
    } else if 0 <= value < LOADTIME_LIMIT {
        Decoded::Done {
            kind: TermKind::Loadtime { tag: loadtime_tag(tag) as nat, val: value as nat },
            next,
            added: Seq::<u64>::empty(),
        }
    } else {
        Decoded::Fail(fault_of_tag(tag))
    }
}

/// The load-time sub-tag of an atom, register or label tag.
pub open spec fn loadtime_tag(tag: u8) -> u64 {
    if tag == TAG_ATOM {
        SPECIAL_LT_ATOM
    } else if tag == TAG_XREG {
        SPECIAL_LT_REGX
    } else if tag == TAG_YREG {
        SPECIAL_LT_REGY
    } else {
        SPECIAL_LT_LABEL
    }
}

/// Whether `r` and the reader after the call are what reading the value
/// `s` gives.
pub open spec fn gives_scanned(
    s: Scanned,
    tag: u8,
    before: BinaryReader,
    r: Result<Number, RtErr>,
    after: BinaryReader,
) -> bool {
    &&& after.bytes() == before.bytes()
    &&& after.pos() >= before.pos()
    &&& match s {
        Scanned::Done { value, next } => {
            &&& r matches Ok(n)
            &&& n.wf()
            &&& n.value() == value
            &&& after.pos() == next
        },
        Scanned::Eof => {
            &&& r matches Err(e)
            &&& e@ == Fault::UnexpectedEof
        },
        Scanned::Bad => {
            &&& r matches Err(e)
            &&& e@ == fault_of_tag(tag)
        },
    }
}

/// Whether `longer` begins with `words`.
pub open spec fn extends(longer: Seq<u64>, words: Seq<u64>) -> bool {
    &&& words.len() <= longer.len()
    &&& longer.subrange(0, words.len() as int) == words
}

/// Whether `r`, the reader and the heap after the call are what decoding
/// the operand `d` gives.  Whatever the outcome, the heap only grows.
pub open spec fn gives_decoded(
    d: Decoded,
    reader_before: BinaryReader,
    heap_before: Heap,
    r: Result<Term, RtErr>,
    reader_after: BinaryReader,
    heap_after: Heap,
) -> bool {
    &&& reader_after.bytes() == reader_before.bytes()
    &&& reader_after.pos() >= reader_before.pos()
    &&& heap_after.limit() == heap_before.limit()
    &&& extends(heap_after@, heap_before@)
    &&& match d {
        Decoded::Done { kind, next, added } => {
            &&& r matches Ok(t)
            &&& t@ == kind
            &&& t.value == word_of_kind(kind)
            &&& reader_after.pos() == next
            &&& heap_after@ == heap_before@ + added
        },
        Decoded::Fail(f) => {
            &&& r matches Err(e)
            &&& e@ == f
        },
    }
}

/// The error of an operand with this tag whose size or value is wrong.
fn tag_error(tag: u8) -> (e: RtErr)
    ensures
        e@ == fault_of_tag(tag),
{
    if tag == TAG_LITERAL {
        RtErr::CompactTerm(CompactTermError::BadLiteralTag)
    } else if tag == TAG_INTEGER {
        RtErr::CompactTerm(CompactTermError::BadIntegerTag)
    } else if tag == TAG_ATOM {
        RtErr::CompactTerm(CompactTermError::BadAtomTag)
    } else if tag == TAG_XREG {
        RtErr::CompactTerm(CompactTermError::BadXRegTag)
    } else if tag == TAG_YREG {
        RtErr::CompactTerm(CompactTermError::BadYRegTag)
    } else if tag == TAG_LABEL {
        RtErr::CompactTerm(CompactTermError::BadLabelTag)
    } else if tag == TAG_CHARACTER {
        RtErr::CompactTerm(CompactTermError::BadCharacterTag)
    } else {
        RtErr::CompactTerm(CompactTermError::BadExtendedTag(String::new()))
    }
}

/// Reads the value in the next `n` bytes.
fn read_multi(r: &mut BinaryReader, n: usize, tag: u8) -> (res: Result<Number, RtErr>)
    requires
        n >= 1,
    ensures
        gives_scanned(
            multi_value(old(r).bytes(), old(r).pos() as int, n as int, signed_tag(tag)),
            tag,
            *old(r),
            res,
            *final(r),
        ),
{
    match r.read_bytes(n) {
        Ok(window) => {
            assert(window@.subrange(0, n as int) =~= window@);
            Ok(Number::from_be_bytes(window.as_slice(), 0, n, tag == TAG_INTEGER || tag == TAG_LABEL))
        },
        Err(e) => Err(RtErr::UnexpectedEof),
    }
}

/// Reads a value in one of the plain forms.
fn read_plain(r: &mut BinaryReader, tag: u8) -> (res: Result<Number, RtErr>)
    ensures
        gives_scanned(
            plain_value(old(r).bytes(), old(r).pos() as int, signed_tag(tag)),
            tag,
            *old(r),
            res,
            *final(r),
        ),
{
    reveal(plain_value);
    let b: u8 = match r.read_u8() {
        Ok(b) => b,
        Err(e) => {
            return Err(RtErr::UnexpectedEof);
        },
    };
    if (b / 8) % 2 == 0 {
        Ok(Number::from_u64((b / 16) as u64))
    } else if (b / 16) % 2 == 0 {
        match r.read_u8() {
            Ok(low) => Ok(Number::from_u64((b / 32) as u64 * 256 + low as u64)),
            Err(e) => Err(RtErr::UnexpectedEof),
        }
    } else if b / 32 < 7 {
        read_multi(r, (b / 32) as usize + 2, tag)
    } else {
        Err(tag_error(tag))
    }
}

/// Reads a value in any form.
fn read_sized(r: &mut BinaryReader, tag: u8) -> (res: Result<Number, RtErr>)
    ensures
        gives_scanned(
            sized_value(old(r).bytes(), old(r).pos() as int, signed_tag(tag)),
            tag,
            *old(r),
            res,
            *final(r),
        ),
{
    reveal(plain_value);
    reveal(sized_value);
    let first: u8 = match r.peek_u8() {
        Ok(b) => b,
        Err(e) => {
            return Err(RtErr::UnexpectedEof);
        },
    };
    if first / 8 != 31 {
        return read_plain(r, tag);
    }
    let skipped = r.read_u8();
    let second: u8 = match r.peek_u8() {
        Ok(b) => b,
        Err(e) => {
            return Err(RtErr::UnexpectedEof);
        },
    };
    if second % 8 != TAG_LITERAL {
        return Err(tag_error(tag));
    }
    let count: Number = match read_plain(r, TAG_LITERAL) {
        Ok(n) => n,
        Err(RtErr::UnexpectedEof) => {
            return Err(RtErr::UnexpectedEof);
        },
        Err(e) => {
            return Err(tag_error(tag));
        },
    };
    let total: usize = r.len();
    let extra: u64 = match count.to_index(u64::MAX) {
        Some(c) => c,
        None => {
            return Err(RtErr::UnexpectedEof);
        },
    };
    if extra > total as u64 {
        return Err(RtErr::UnexpectedEof);
    }
    if extra as usize > usize::MAX - 9 {
        return Err(RtErr::UnexpectedEof);
    }
    read_multi(r, extra as usize + 9, tag)
}

/// The term of a value with a tag other than `TAG_EXTENDED`.
fn make_tagged(tag: u8, n: &Number, hp: &mut Heap, Ghost(next): Ghost<int>) -> (res: Result<
    Term,
    RtErr,
>)
    requires
        n.wf(),
        tag < TAG_EXTENDED,
    ensures
        final(hp).limit() == old(hp).limit(),
        extends(final(hp)@, old(hp)@),
        match tagged_term(tag, n.value(), next, old(hp)@.len(), old(hp).limit()) {
            Decoded::Done { kind, next, added } => {
                &&& res matches Ok(t)
                &&& t@ == kind
                &&& t.value == word_of_kind(kind)
                &&& final(hp)@ == old(hp)@ + added
            },
            Decoded::Fail(f) => {
                &&& res matches Err(e)
                &&& e@ == f
            },
        },
{
    assert(hp@.subrange(0, hp@.len() as int) =~= hp@);
    assert(hp@ + Seq::<u64>::empty() =~= hp@);
    if tag == TAG_INTEGER {
        let ghost before = hp@;
        let made = number_term(hp, n);
        assert(hp@.subrange(0, before.len() as int) =~= before);
        match made {
            Ok(t) => Ok(t),
            Err(e) => Err(RtErr::HeapOutOfMemory),
        }
    } else if tag == TAG_LITERAL || tag == TAG_CHARACTER {
        match n.to_index(SMALL_MAX as u64 + 1) {
            Some(v) => Ok(Term::make_small_unsigned(v)),
            None => Err(tag_error(tag)),
        }
    } else {
        match n.to_index(LOADTIME_LIMIT) {
            Some(v) => {
                if (tag == TAG_ATOM || tag == TAG_LABEL) && v == 0 {
                    Ok(Term::nil())
                } else if tag == TAG_ATOM {
                    Ok(Term::make_loadtime(SPECIAL_LT_ATOM, v))
                } else if tag == TAG_XREG {
                    Ok(Term::make_loadtime(SPECIAL_LT_REGX, v))
                } else if tag == TAG_YREG {
                    Ok(Term::make_loadtime(SPECIAL_LT_REGY, v))
                } else {
                    Ok(Term::make_loadtime(SPECIAL_LT_LABEL, v))
                }
            },
            None => Err(tag_error(tag)),
        }
    }
}

/// One binary digit of `b` as text.
pub open spec fn bit_text(b: u8, weight: u8) -> Seq<char> {
    if (b / weight) % 2 == 1 {
        "1"@
    } else {
        "0"@
    }
}

/// The message for an extended operand whose second byte `b` names nothing.
pub open spec fn unknown_ext_message(b: u8) -> Seq<char> {
    "Ext tag "@ + bit_text(b, 128) + bit_text(b, 64) + bit_text(b, 32) + bit_text(b, 16) + bit_text(
        b,
        8,
    ) + bit_text(b, 4) + bit_text(b, 2) + bit_text(b, 1) + " is unknown"@
}

/// The message for a list with an odd number of elements, or with a list
/// among its elements.
pub open spec fn list_message() -> Seq<char> {
    "Ext list is malformed"@
}

/// The message for an allocation list that allocates something unknown, or
/// asks for more words than a small integer can count.
pub open spec fn alloc_list_message() -> Seq<char> {
    "Ext allocation list is malformed"@
}

/// The fault of an extended operand, with its message.
pub open spec fn ext_fault(message: Seq<char>) -> Fault {
    Fault::CompactTerm(TermFault::BadExtendedTag(message))
}

/// The value of the operand at `pos`, which has to be a literal.
pub open spec fn literal_value(bytes: Seq<u8>, pos: int) -> Scanned {
    if pos >= bytes.len() {
        Scanned::Eof
    } else if bytes[pos] % 8 != TAG_LITERAL {
        Scanned::Bad
    } else {
        sized_value(bytes, pos, false)
    }
}

/// The load-time term with sub-tag `lt_tag` whose value is the literal
/// operand at `pos`.
pub open spec fn index_operand(bytes: Seq<u8>, pos: int, lt_tag: u64) -> Decoded {
    match literal_value(bytes, pos) {
        Scanned::Eof => Decoded::Fail(Fault::UnexpectedEof),
        Scanned::Bad => Decoded::Fail(fault_of_tag(TAG_LITERAL)),
        Scanned::Done { value, next } => if value < LOADTIME_LIMIT {
            Decoded::Done {
                kind: TermKind::Loadtime { tag: lt_tag as nat, val: value as nat },
                next,
                added: Seq::<u64>::empty(),
            }
        } else {
            Decoded::Fail(fault_of_tag(TAG_LITERAL))
        },
    }
}

/// The words that `count` allocations of kind `what` take.
pub open spec fn alloc_words(what: int, count: int) -> int {
    if what == 0 {
        count
    } else {
        2 * count
    }
}

/// The words that `remaining` entries of an allocation list ask for, added
/// to `acc`.  An entry says what is allocated, and how many of it, both as
/// literals: a word (0) takes one word, a float (1) takes two.
pub open spec fn alloc_list(bytes: Seq<u8>, pos: int, remaining: nat, acc: int) -> Decoded
    decreases remaining,
{
    if remaining == 0 {
        Decoded::Done { kind: TermKind::Small(acc), next: pos, added: Seq::<u64>::empty() }
    } else {
        match literal_value(bytes, pos) {
            Scanned::Eof => Decoded::Fail(Fault::UnexpectedEof),
            Scanned::Bad => Decoded::Fail(fault_of_tag(TAG_LITERAL)),
            Scanned::Done { value: what, next: at } => match literal_value(bytes, at) {
                Scanned::Eof => Decoded::Fail(Fault::UnexpectedEof),
                Scanned::Bad => Decoded::Fail(fault_of_tag(TAG_LITERAL)),
                Scanned::Done { value: count, next: after } => if (what == 0 || what == 1) && count
                    <= SMALL_MAX && acc + alloc_words(what, count) <= SMALL_MAX {
                    alloc_list(bytes, after, (remaining - 1) as nat, acc + alloc_words(what, count))
                } else {
                    Decoded::Fail(ext_fault(alloc_list_message()))
                },
            },
        }
    }
}

/// The small integer that an allocation list stands for: the number of
/// words that it asks for.  The literal at `pos` counts its entries.
pub open spec fn alloc_list_operand(bytes: Seq<u8>, pos: int) -> Decoded {
    match literal_value(bytes, pos) {
        Scanned::Eof => Decoded::Fail(Fault::UnexpectedEof),
        Scanned::Bad => Decoded::Fail(fault_of_tag(TAG_LITERAL)),
        Scanned::Done { value, next } => if value <= SMALL_MAX {
            alloc_list(bytes, next, value as nat, 0)
        } else {
            Decoded::Fail(ext_fault(alloc_list_message()))
        },
    }
}

/// The extended operand whose second byte is at `pos`, a list excepted.
pub open spec fn extended_operand(bytes: Seq<u8>, pos: int) -> Decoded {
    if pos >= bytes.len() {
        Decoded::Fail(Fault::UnexpectedEof)
    } else if bytes[pos] == EXT_FPREG {
        index_operand(bytes, pos + 1, SPECIAL_LT_REGFP)
    } else if bytes[pos] == EXT_LITERAL {
        index_operand(bytes, pos + 1, SPECIAL_LT_LITERAL)
    } else if bytes[pos] == EXT_ALLOC_LIST {
        alloc_list_operand(bytes, pos + 1)
    } else if bytes[pos] == EXT_LIST {
        Decoded::Fail(ext_fault(list_message()))
    } else {
        Decoded::Fail(ext_fault(unknown_ext_message(bytes[pos])))
    }
}

/// The operand at `pos`, where a list is not accepted: what an element of a
/// list is.  The heap holds `used` words and may hold `limit`.
pub open spec fn simple_operand(bytes: Seq<u8>, pos: int, used: nat, limit: nat) -> Decoded {
    if pos >= bytes.len() {
        Decoded::Fail(Fault::UnexpectedEof)
    } else if bytes[pos] % 8 == TAG_EXTENDED {
        extended_operand(bytes, pos + 1)
    } else {
        match sized_value(bytes, pos, signed_tag(bytes[pos] % 8)) {
            Scanned::Eof => Decoded::Fail(Fault::UnexpectedEof),
            Scanned::Bad => Decoded::Fail(fault_of_tag(bytes[pos] % 8)),
            Scanned::Done { value, next } => tagged_term(bytes[pos] % 8, value, next, used, limit),
        }
    }
}

/// Elements `i` to `n` of a list, decoded from `pos` into the jump table at
/// offset `table`.  `block` holds the words from the table on: the table,
/// and behind it the bignums among the elements before.
pub open spec fn list_elements(
    bytes: Seq<u8>,
    pos: int,
    limit: nat,
    table: nat,
    block: Seq<u64>,
    i: nat,
    n: nat,
) -> Decoded
    decreases n - i,
{
    if i >= n {
        Decoded::Done { kind: TermKind::Boxed(table), next: pos, added: block }
    } else {
        match simple_operand(bytes, pos, table + block.len(), limit) {
            Decoded::Fail(f) => Decoded::Fail(f),
            Decoded::Done { kind, next, added } => list_elements(
                bytes,
                next,
                limit,
                table,
                (block + added).update(2 + i as int, word_of_kind(kind)),
                i + 1,
                n,
            ),
        }
    }
}

/// The list whose element count is the literal operand at `pos`: a jump
/// table at the end of the heap, filled with the elements that follow.
pub open spec fn list_operand(bytes: Seq<u8>, pos: int, used: nat, limit: nat) -> Decoded {
    match literal_value(bytes, pos) {
        Scanned::Eof => Decoded::Fail(Fault::UnexpectedEof),
        Scanned::Bad => Decoded::Fail(fault_of_tag(TAG_LITERAL)),
        Scanned::Done { value, next } => if value + 2 >= HEADER_SIZE_LIMIT {
            Decoded::Fail(Fault::HeapOutOfMemory)
        } else if value % 2 != 0 {
            Decoded::Fail(ext_fault(list_message()))
        } else if !room_for(used, limit, (value + 2) as nat) {
            Decoded::Fail(Fault::HeapOutOfMemory)
        } else {
            list_elements(
                bytes,
                next,
                limit,
                used,
                jump_table_image((value / 2) as nat),
                0,
                value as nat,
            )
        },
    }
}

/// The operand at `pos`, decoded onto a heap that holds `used` words and
/// may hold `limit`.
#[verifier::opaque]
pub open spec fn operand(bytes: Seq<u8>, pos: int, used: nat, limit: nat) -> Decoded {
    if pos + 1 < bytes.len() && bytes[pos] % 8 == TAG_EXTENDED && bytes[pos + 1] == EXT_LIST {
        list_operand(bytes, pos + 2, used, limit)
    } else {
        simple_operand(bytes, pos, used, limit)
    }
}

/// The error of an extended operand whose second byte names nothing.
fn unknown_ext_error(b: u8) -> (e: RtErr)
    ensures
        e@ == ext_fault(unknown_ext_message(b)),
{
    let mut msg = String::from_str("Ext tag ");
    msg.append(bit_str(b, 128));
    msg.append(bit_str(b, 64));
    msg.append(bit_str(b, 32));
    msg.append(bit_str(b, 16));
    msg.append(bit_str(b, 8));
    msg.append(bit_str(b, 4));
    msg.append(bit_str(b, 2));
    msg.append(bit_str(b, 1));
    msg.append(" is unknown");
    RtErr::CompactTerm(CompactTermError::BadExtendedTag(msg))
}

/// One binary digit of `b` as text.
fn bit_str(b: u8, weight: u8) -> (s: &'static str)
    requires
        weight > 0,
    ensures
        s@ == bit_text(b, weight),
{
    if (b / weight) % 2 == 1 {
        "1"
    } else {
        "0"
    }
}

/// The error of a malformed list.
fn list_error() -> (e: RtErr)
    ensures
        e@ == ext_fault(list_message()),
{
    RtErr::CompactTerm(CompactTermError::BadExtendedTag(String::from_str("Ext list is malformed")))
}

/// The error of a malformed allocation list.
fn alloc_list_error() -> (e: RtErr)
    ensures
        e@ == ext_fault(alloc_list_message()),
{
    RtErr::CompactTerm(
        CompactTermError::BadExtendedTag(String::from_str("Ext allocation list is malformed")),
    )
}

/// Reads an operand that has to be a literal.
fn read_literal(r: &mut BinaryReader) -> (res: Result<Number, RtErr>)
    ensures
        gives_scanned(
            literal_value(old(r).bytes(), old(r).pos() as int),
            TAG_LITERAL,
            *old(r),
            res,
            *final(r),
        ),
{
    let first: u8 = match r.peek_u8() {
        Ok(b) => b,
        Err(e) => {
            return Err(RtErr::UnexpectedEof);
        },
    };
    if first % 8 != TAG_LITERAL {
        return Err(tag_error(TAG_LITERAL));
    }
    read_sized(r, TAG_LITERAL)
}

/// Reads a literal operand as the value of a load-time term.
fn read_index(r: &mut BinaryReader, lt_tag: u64) -> (res: Result<Term, RtErr>)
    requires
        lt_tag <= SPECIAL_LT_REGFP,
    ensures
        final(r).bytes() == old(r).bytes(),
        final(r).pos() >= old(r).pos(),
        match index_operand(old(r).bytes(), old(r).pos() as int, lt_tag) {
            Decoded::Done { kind, next, added } => {
                &&& res matches Ok(t)
                &&& t@ == kind
                &&& t.value == word_of_kind(kind)
                &&& final(r).pos() == next
                &&& added == Seq::<u64>::empty()
            },
            Decoded::Fail(f) => {
                &&& res matches Err(e)
                &&& e@ == f
            },
        },
{
    let n: Number = match read_literal(r) {
        Ok(n) => n,
        Err(RtErr::UnexpectedEof) => {
            return Err(RtErr::UnexpectedEof);
        },
        Err(e) => {
            return Err(tag_error(TAG_LITERAL));
        },
    };
    proof {
        lemma_nonnegative_literal(old(r).bytes(), old(r).pos() as int);
    }
    match n.to_index(LOADTIME_LIMIT) {
        Some(v) => Ok(Term::make_loadtime(lt_tag, v)),
        None => Err(tag_error(TAG_LITERAL)),
    }
}

/// A literal is not negative: its bytes are read as a magnitude.
pub proof fn lemma_nonnegative_literal(bytes: Seq<u8>, pos: int)
    requires
        0 <= pos,
    ensures
        literal_value(bytes, pos) matches Scanned::Done { value, next } ==> value >= 0 && next
            > pos,
{
    reveal(plain_value);
    reveal(sized_value);
}

/// Reads an allocation list, from its entry count on.
fn read_alloc_list(r: &mut BinaryReader) -> (res: Result<Term, RtErr>)
    ensures
        final(r).bytes() == old(r).bytes(),
        final(r).pos() >= old(r).pos(),
        match alloc_list_operand(old(r).bytes(), old(r).pos() as int) {
            Decoded::Done { kind, next, added } => {
                &&& res matches Ok(t)
                &&& t@ == kind
                &&& t.value == word_of_kind(kind)
                &&& final(r).pos() == next
                &&& added == Seq::<u64>::empty()
            },
            Decoded::Fail(f) => {
                &&& res matches Err(e)
                &&& e@ == f
            },
        },
{
    let ghost bytes = r.bytes();
    let ghost start = r.pos() as int;
    let counted: Number = match read_literal(r) {
        Ok(n) => n,
        Err(RtErr::UnexpectedEof) => {
            return Err(RtErr::UnexpectedEof);
        },
        Err(e) => {
            return Err(tag_error(TAG_LITERAL));
        },
    };
    proof {
        lemma_nonnegative_literal(bytes, start);
    }
    let n: u64 = match counted.to_index(SMALL_MAX as u64 + 1) {
        Some(n) => n,
        None => {
            return Err(alloc_list_error());
        },
    };
    let ghost whole = alloc_list_operand(bytes, start);
    let mut acc: u64 = 0;
    let mut i: u64 = 0;
    while i < n
        invariant
            i <= n <= SMALL_MAX,
            acc <= SMALL_MAX,
            r.bytes() == bytes,
            r.pos() >= old(r).pos(),
            bytes == old(r).bytes(),
            start == old(r).pos(),
            whole == alloc_list_operand(bytes, start),
            alloc_list(bytes, r.pos() as int, (n - i) as nat, acc as int) == whole,
        decreases n - i,
    {
        let ghost at = r.pos() as int;
        let what: Number = match read_literal(r) {
            Ok(n) => n,
            Err(RtErr::UnexpectedEof) => {
                return Err(RtErr::UnexpectedEof);
            },
            Err(e) => {
                return Err(tag_error(TAG_LITERAL));
            },
        };
        let ghost then = r.pos() as int;
        let count: Number = match read_literal(r) {
            Ok(n) => n,
            Err(RtErr::UnexpectedEof) => {
                return Err(RtErr::UnexpectedEof);
            },
            Err(e) => {
                return Err(tag_error(TAG_LITERAL));
            },
        };
        proof {
            lemma_nonnegative_literal(bytes, at);
            lemma_nonnegative_literal(bytes, then);
        }
        let kind: u64 = match what.to_index(2) {
            Some(k) => k,
            None => {
                return Err(alloc_list_error());
            },
        };
        let c: u64 = match count.to_index(SMALL_MAX as u64 + 1) {
            Some(c) => c,
            None => {
                return Err(alloc_list_error());
            },
        };
        let need: u64 = if kind == 0 {
            c
        } else {
            2 * c
        };
        if need > SMALL_MAX as u64 - acc {
            return Err(alloc_list_error());
        }
        acc = acc + need;
        i += 1;
    }
    Ok(Term::make_small_unsigned(acc))
}

/// Reads an extended operand other than a list, from its second byte on.
fn read_extended(r: &mut BinaryReader) -> (res: Result<Term, RtErr>)
    ensures
        final(r).bytes() == old(r).bytes(),
        final(r).pos() >= old(r).pos(),
        match extended_operand(old(r).bytes(), old(r).pos() as int) {
            Decoded::Done { kind, next, added } => {
                &&& res matches Ok(t)
                &&& t@ == kind
                &&& t.value == word_of_kind(kind)
                &&& final(r).pos() == next
                &&& added == Seq::<u64>::empty()
            },
            Decoded::Fail(f) => {
                &&& res matches Err(e)
                &&& e@ == f
            },
        },
{
    let sub: u8 = match r.read_u8() {
        Ok(b) => b,
        Err(e) => {
            return Err(RtErr::UnexpectedEof);
        },
    };
    if sub == EXT_FPREG {
        read_index(r, SPECIAL_LT_REGFP)
    } else if sub == EXT_LITERAL {
        read_index(r, SPECIAL_LT_LITERAL)
    } else if sub == EXT_ALLOC_LIST {
        read_alloc_list(r)
    } else if sub == EXT_LIST {
        Err(list_error())
    } else {
        Err(unknown_ext_error(sub))
    }
}

/// Reads one operand where a list is not accepted.
pub fn read_simple(r: &mut BinaryReader, hp: &mut Heap) -> (res: Result<Term, RtErr>)
    ensures
        gives_decoded(
            simple_operand(old(r).bytes(), old(r).pos() as int, old(hp)@.len(), old(hp).limit()),
            *old(r),
            *old(hp),
            res,
            *final(r),
            *final(hp),
        ),
{
    assert(hp@.subrange(0, hp@.len() as int) =~= hp@);
    assert(hp@ + Seq::<u64>::empty() =~= hp@);
    let first: u8 = match r.peek_u8() {
        Ok(b) => b,
        Err(e) => {
            return Err(RtErr::UnexpectedEof);
        },
    };
    let tag: u8 = first % 8;
    if tag == TAG_EXTENDED {
        let skipped = r.read_u8();
        return read_extended(r);
    }
    let n: Number = match read_sized(r, tag) {
        Ok(n) => n,
        Err(RtErr::UnexpectedEof) => {
            return Err(RtErr::UnexpectedEof);
        },
        Err(e) => {
            return Err(tag_error(tag));
        },
    };
    make_tagged(tag, &n, hp, Ghost(r.pos() as int))
}

/// What extends an extension of some words extends those words.
pub proof fn lemma_extends_trans(a: Seq<u64>, b: Seq<u64>, c: Seq<u64>)
    requires
        extends(b, a),
        extends(c, b),
    ensures
        extends(c, a),
{
    assert forall|i: int| 0 <= i < a.len() implies c[i] == a[i] by {
        assert(b.subrange(0, a.len() as int)[i] == b[i]);
        assert(c.subrange(0, b.len() as int)[i] == c[i]);
    }
    assert(c.subrange(0, a.len() as int) =~= a);
}

/// A jump table stays a jump table, with its count, when the heap grows.
pub proof fn lemma_jump_table_stable(words: Seq<u64>, longer: Seq<u64>, p: int)
    requires
        jump_table_at(words, p),
        extends(longer, words),
    ensures
        jump_table_at(longer, p),
        jump_table_count(longer, p) == jump_table_count(words, p),
{
    lemma_block_stable(words, longer, p, BOXTYPETAG_JUMP_TABLE);
}

/// Reads a list, from its element count on, into a new jump table.
fn read_list(r: &mut BinaryReader, hp: &mut Heap) -> (res: Result<Term, RtErr>)
    ensures
        gives_decoded(
            list_operand(old(r).bytes(), old(r).pos() as int, old(hp)@.len(), old(hp).limit()),
            *old(r),
            *old(hp),
            res,
            *final(r),
            *final(hp),
        ),
{
    assert(hp@.subrange(0, hp@.len() as int) =~= hp@);
    let ghost bytes = r.bytes();
    let ghost limit = hp.limit();
    let ghost start = hp@;
    let ghost whole = list_operand(bytes, r.pos() as int, start.len(), limit);
    let counted: Number = match read_literal(r) {
        Ok(n) => n,
        Err(RtErr::UnexpectedEof) => {
            return Err(RtErr::UnexpectedEof);
        },
        Err(e) => {
            return Err(tag_error(TAG_LITERAL));
        },
    };
    proof {
        lemma_nonnegative_literal(bytes, old(r).pos() as int);
    }
    let n64: u64 = match counted.to_index(HEADER_SIZE_LIMIT - 2) {
        Some(n) => n,
        None => {
            return Err(RtErr::HeapOutOfMemory);
        },
    };
    if n64 % 2 != 0 {
        return Err(list_error());
    }
    let room: usize = hp.remaining();
    if n64 > room as u64 {
        return Err(RtErr::HeapOutOfMemory);
    }
    let n: usize = n64 as usize;
    let table: usize = match JumpTable::create_into(hp, n / 2) {
        Ok(p) => p,
        Err(e) => {
            return Err(RtErr::HeapOutOfMemory);
        },
    };
    let ghost mut block = jump_table_image((n / 2) as nat);
    assert(extends(hp@, start)) by {
        assert(hp@.subrange(0, start.len() as int) =~= start);
    }
    let mut i: usize = 0;
    while i < n
        invariant
            i <= n,
            n == 2 * jump_table_count(hp@, table as int),
            jump_table_at(hp@, table as int),
            table == start.len(),
            start == old(hp)@,
            hp.limit() == limit,
            limit == old(hp).limit(),
            r.bytes() == bytes,
            r.pos() >= old(r).pos(),
            bytes == old(r).bytes(),
            hp@ == start + block,
            block.len() >= n + 2,
            whole == list_operand(bytes, old(r).pos() as int, start.len(), limit),
            list_elements(bytes, r.pos() as int, limit, table as nat, block, i as nat, n as nat)
                == whole,
        decreases n - i,
    {
        let ghost before = hp@;
        let ghost at = r.pos() as int;
        let t: Term = match read_simple(r, hp) {
            Ok(t) => t,
            Err(e) => {
                proof {
                    assert(extends(before, start)) by {
                        assert(before.subrange(0, start.len() as int) =~= start);
                    }
                    lemma_extends_trans(start, before, hp@);
                }
                return Err(e);
            },
        };
        proof {
            lemma_jump_table_stable(before, hp@, table as int);
        }
        let ghost grown = hp@;
        JumpTable::set_element(hp, table, i, t);
        proof {
            let tail = grown.subrange(before.len() as int, grown.len() as int);
            let element = simple_operand(bytes, at, before.len(), limit);
            assert(before.len() == table + block.len());
            assert(tail =~= element->added);
            assert(grown =~= before + tail);
            assert(hp@ =~= start + (block + tail).update(2 + i, t.value));
            block = (block + tail).update(2 + i, t.value);
        }
        i += 1;
    }
    proof {
        hp.lemma_len_bound();
        assert(hp@.subrange(0, start.len() as int) =~= start);
    }
    Ok(Term::make_boxed(table as u64))
}

/// Reads one operand and returns its term.  A bignum or a jump table that
/// the operand stands for is allocated on the heap.
pub fn read(r: &mut BinaryReader, hp: &mut Heap) -> (res: Result<Term, RtErr>)
    ensures
        gives_decoded(
            operand(old(r).bytes(), old(r).pos() as int, old(hp)@.len(), old(hp).limit()),
            *old(r),
            *old(hp),
            res,
            *final(r),
            *final(hp),
        ),
{
    reveal(operand);
    assert(hp@.subrange(0, hp@.len() as int) =~= hp@);
    assert(hp@ + Seq::<u64>::empty() =~= hp@);
    let first: u8 = match r.peek_u8() {
        Ok(b) => b,
        Err(e) => {
            return Err(RtErr::UnexpectedEof);
        },
    };
    if first % 8 != TAG_EXTENDED {
        return read_simple(r, hp);
    }
    let skipped = r.read_u8();
    let second: u8 = match r.peek_u8() {
        Ok(b) => b,
        Err(e) => {
            return Err(RtErr::UnexpectedEof);
        },
    };
    if second == EXT_LIST {
        let skipped = r.read_u8();
        read_list(r, hp)
    } else {
        read_extended(r)
    }
}

} // verus!
