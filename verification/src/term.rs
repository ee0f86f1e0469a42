//! The tagged machine word.
//!
//! A [`Term`] is one 64-bit word.  Its low two bits are the primary tag; an
//! immediate carries two more tag bits, and the "special" immediates four
//! more after those.  Every tag test is one remainder and one comparison.
//!
//! ```text
//! ..............................................................00  header of a boxed value
//! ..............................................................01  cons pointer
//! ..............................................................10  boxed pointer
//! ............................................................0011  pid
//! ............................................................0111  port
//! ............................................................1111  small integer (60 bits, signed)
//! ........................................................ssss1011  special, sub-tag ssss
//! ```
use vstd::prelude::*;

verus! {

/// Largest small integer, `2^59 - 1`.
pub const SMALL_MAX: i64 = 0x07ff_ffff_ffff_ffff;

/// Smallest small integer, `-2^59`.
pub const SMALL_MIN: i64 = -0x0800_0000_0000_0000;

/// Exclusive bound of a pointer's word offset (62 bits).
pub const OFFSET_LIMIT: u64 = 0x4000_0000_0000_0000;

/// Exclusive bound of the value of a special immediate (56 bits).
pub const SPECIAL_LIMIT: u64 = 0x0100_0000_0000_0000;

/// Exclusive bound of the value of a load-time term (53 bits).
pub const LOADTIME_LIMIT: u64 = 0x0020_0000_0000_0000;

/// Exclusive bound of the storage size written in a header word (58 bits).
pub const HEADER_SIZE_LIMIT: u64 = 0x0400_0000_0000_0000;

pub const PRIMARY_HEADER: u64 = 0;

pub const PRIMARY_CONS: u64 = 1;

pub const PRIMARY_BOXED: u64 = 2;

pub const IMMED_PID: u64 = 3;

pub const IMMED_PORT: u64 = 7;

pub const IMMED_SPECIAL: u64 = 11;

pub const IMMED_SMALL: u64 = 15;

pub const SPECIAL_ATOM: u64 = 0x0b;

pub const SPECIAL_NIL: u64 = 0x1b;

pub const SPECIAL_CP: u64 = 0x2b;

pub const SPECIAL_REGX: u64 = 0x3b;

pub const SPECIAL_REGY: u64 = 0x4b;

pub const SPECIAL_REGFP: u64 = 0x5b;

pub const SPECIAL_LOADTIME: u64 = 0x6b;

pub const SPECIAL_OPCODE: u64 = 0x7b;

/// Load-time sub-tag: index into the module's atom table.
pub const SPECIAL_LT_ATOM: u64 = 0;

/// Load-time sub-tag: index into the module's literal table.
pub const SPECIAL_LT_LITERAL: u64 = 1;

/// Load-time sub-tag: label id.
pub const SPECIAL_LT_LABEL: u64 = 2;

/// Load-time sub-tag: reference to an X register.
pub const SPECIAL_LT_REGX: u64 = 3;

/// Load-time sub-tag: reference to a Y register.
pub const SPECIAL_LT_REGY: u64 = 4;

/// Load-time sub-tag: reference to a floating-point register.
pub const SPECIAL_LT_REGFP: u64 = 5;

/// What a word means.  This is the mathematical model of a [`Term`]: every
/// contract of the runtime that speaks of a term speaks of its kind.
pub enum TermKind {
    /// First word of a boxed value: its type tag and its storage size in words.
    Header { boxtype: nat, size: nat },
    /// Pointer to a two-word cell, as a word offset into a heap.
    Cons(nat),
    /// Pointer to a header-prefixed value, as a word offset into a heap.
    Boxed(nat),
    Pid(nat),
    Port(nat),
    Small(int),
    /// Index into the global atom table.
    Atom(nat),
    /// The empty list.
    Nil,
    /// Code pointer, as a word offset into a code image.
    Cp(nat),
    RegX(nat),
    RegY(nat),
    RegFp(nat),
    /// An opcode as it stands in a code image.
    Opcode(nat),
    /// Load-time term: sub-tag and value.  Only the loader sees these.
    Loadtime { tag: nat, val: nat },
    /// No term at all.
    Invalid,
}

/// A tagged machine word.
#[derive(Clone, Copy, Debug, PartialEq, Eq, Structural)]
pub struct Term {
    pub value: u64,
}

/// The value that a small-integer word carries.
pub open spec fn small_of_word(w: u64) -> int {
    if w / 16 >= 0x0800_0000_0000_0000 {
        w / 16 - 0x1000_0000_0000_0000
    } else {
        (w / 16) as int
    }
}

/// The small-integer word that carries `i`.
pub open spec fn word_of_small(i: int) -> int {
    if i >= 0 {
        i * 16 + 15
    } else {
        (i + 0x1000_0000_0000_0000) * 16 + 15
    }
}

/// Whether `i` is in the small-integer range.
pub open spec fn small_fits_spec(i: int) -> bool {
    -0x0800_0000_0000_0000 <= i <= 0x07ff_ffff_ffff_ffff
}

/// The kind of a word whose low four bits are those of a special immediate.
pub open spec fn special_kind(w: u64) -> TermKind {
    let tag = w % 256;
    let val = (w / 256) as nat;
    if tag == SPECIAL_ATOM {
        TermKind::Atom(val)
    } else if tag == SPECIAL_NIL {
        if val == 0 {
            TermKind::Nil
        } else {
            TermKind::Invalid
        }
    } else if tag == SPECIAL_CP {
        TermKind::Cp(val)
    } else if tag == SPECIAL_REGX {
        TermKind::RegX(val)
    } else if tag == SPECIAL_REGY {
        TermKind::RegY(val)
    } else if tag == SPECIAL_REGFP {
        TermKind::RegFp(val)
    } else if tag == SPECIAL_OPCODE {
        TermKind::Opcode(val)
    } else if tag == SPECIAL_LOADTIME {
        if val % 8 <= SPECIAL_LT_REGFP {
            TermKind::Loadtime { tag: val % 8, val: val / 8 }
        } else {
            TermKind::Invalid
        }
    } else {
        TermKind::Invalid
    }
}

/// The kind of a word.
pub open spec fn kind_of_word(w: u64) -> TermKind {
    if w % 4 == PRIMARY_HEADER {
        TermKind::Header { boxtype: ((w / 4) % 16) as nat, size: (w / 64) as nat }
    } else if w % 4 == PRIMARY_CONS {
        TermKind::Cons((w / 4) as nat)
    } else if w % 4 == PRIMARY_BOXED {
        TermKind::Boxed((w / 4) as nat)
    } else if w % 16 == IMMED_PID {
        TermKind::Pid((w / 16) as nat)
    } else if w % 16 == IMMED_PORT {
        TermKind::Port((w / 16) as nat)
    } else if w % 16 == IMMED_SMALL {
        TermKind::Small(small_of_word(w))
    } else {
        special_kind(w)
    }
}

impl View for Term {
    type V = TermKind;

    open spec fn view(&self) -> TermKind {
        kind_of_word(self.value)
    }
}

impl Term {
    /// The word itself.
    pub fn raw(self) -> (w: u64)
        ensures
            w == self.value,
    {
        self.value
    }

    /// The term that a word stands for.
    pub fn from_raw(w: u64) -> (t: Term)
        ensures
            t.value == w,
    {
        Term { value: w }
    }

    /// The empty list.
    pub fn nil() -> (t: Term)
        ensures
            t@ == TermKind::Nil,
            t.value == SPECIAL_NIL,
            t.value == word_of_kind(t@),
    {
        Term { value: SPECIAL_NIL }
    }

    pub fn is_nil(self) -> (b: bool)
        ensures
            b == (self@ == TermKind::Nil),
    {
        self.value == SPECIAL_NIL
    }

    /// Whether `i` can be held in a small integer.
    pub fn small_fits(i: i64) -> (b: bool)
        ensures
            b == small_fits_spec(i as int),
    {
        SMALL_MIN <= i && i <= SMALL_MAX
    }

    pub fn is_small(self) -> (b: bool)
        ensures
            b == (self@ is Small),
    {
        self.value % 16 == IMMED_SMALL
    }

    /// The small integer `i`.
    pub fn make_small_signed(i: i64) -> (t: Term)
        requires
            small_fits_spec(i as int),
        ensures
            t@ == TermKind::Small(i as int),
            t.value == word_of_small(i as int),
            t.value == word_of_kind(t@),
    {
        if i >= 0 {
            Term { value: (i as u64) * 16 + IMMED_SMALL }
        } else {
            let lifted: i64 = i + SMALL_MAX + 1;
            Term { value: (lifted as u64 + 0x0800_0000_0000_0000) * 16 + IMMED_SMALL }
        }
    }

    /// The small integer `u`.
    pub fn make_small_unsigned(u: u64) -> (t: Term)
        requires
            u <= SMALL_MAX,
        ensures
            t@ == TermKind::Small(u as int),
            t.value == word_of_small(u as int),
            t.value == word_of_kind(t@),
    {
        Term { value: u * 16 + IMMED_SMALL }
    }

    pub fn get_small_signed(self) -> (i: i64)
        requires
            self@ is Small,
        ensures
            self@ == TermKind::Small(i as int),
            small_fits_spec(i as int),
    {
        let v: u64 = self.value / 16;
        if v >= 0x0800_0000_0000_0000 {
            let low: u64 = v - 0x0800_0000_0000_0000;
            (low as i64) + SMALL_MIN
        } else {
            v as i64
        }
    }

    pub fn get_small_unsigned(self) -> (u: u64)
        requires
            self@ is Small,
            self@->Small_0 >= 0,
        ensures
            self@ == TermKind::Small(u as int),
            u <= SMALL_MAX,
    {
        self.value / 16
    }

    pub fn small_0() -> (t: Term)
        ensures
            t@ == TermKind::Small(0),
            t.value == word_of_kind(t@),
    {
        Term { value: IMMED_SMALL }
    }

    pub fn small_1() -> (t: Term)
        ensures
            t@ == TermKind::Small(1),
            t.value == word_of_kind(t@),
    {
        Term { value: 16 + IMMED_SMALL }
    }

    /// The atom with index `index` in the global atom table.
    pub fn make_atom(index: u64) -> (t: Term)
        requires
            index < SPECIAL_LIMIT,
        ensures
            t@ == TermKind::Atom(index as nat),
            t.value == word_of_kind(t@),
    {
        Term { value: index * 256 + SPECIAL_ATOM }
    }

    pub fn is_atom(self) -> (b: bool)
        ensures
            b == (self@ is Atom),
    {
        self.value % 256 == SPECIAL_ATOM
    }

    pub fn atom_index(self) -> (index: u64)
        requires
            self@ is Atom,
        ensures
            self@ == TermKind::Atom(index as nat),
            index < SPECIAL_LIMIT,
    {
        self.value / 256
    }

    /// Pointer to the boxed value at word `offset` of a heap.
    pub fn make_boxed(offset: u64) -> (t: Term)
        requires
            offset < OFFSET_LIMIT,
        ensures
            t@ == TermKind::Boxed(offset as nat),
            t.value == word_of_kind(t@),
    {
        Term { value: offset * 4 + PRIMARY_BOXED }
    }

    pub fn is_boxed(self) -> (b: bool)
        ensures
            b == (self@ is Boxed),
    {
        self.value % 4 == PRIMARY_BOXED
    }

    pub fn get_box_offset(self) -> (offset: u64)
        requires
            self@ is Boxed,
        ensures
            self@ == TermKind::Boxed(offset as nat),
            offset < OFFSET_LIMIT,
    {
        self.value / 4
    }

    /// Pointer to the cons cell at word `offset` of a heap.
    pub fn make_cons(offset: u64) -> (t: Term)
        requires
            offset < OFFSET_LIMIT,
        ensures
            t@ == TermKind::Cons(offset as nat),
            t.value == word_of_kind(t@),
    {
        Term { value: offset * 4 + PRIMARY_CONS }
    }

    pub fn is_cons(self) -> (b: bool)
        ensures
            b == (self@ is Cons),
    {
        self.value % 4 == PRIMARY_CONS
    }

    pub fn get_cons_offset(self) -> (offset: u64)
        requires
            self@ is Cons,
        ensures
            self@ == TermKind::Cons(offset as nat),
            offset < OFFSET_LIMIT,
    {
        self.value / 4
    }

    pub fn is_pid(self) -> (b: bool)
        ensures
            b == (self@ is Pid),
    {
        self.value % 16 == IMMED_PID
    }

    pub fn is_port(self) -> (b: bool)
        ensures
            b == (self@ is Port),
    {
        self.value % 16 == IMMED_PORT
    }

    /// Header word of a boxed value of type `boxtype` that takes `size` words.
    pub fn make_header(boxtype: u64, size: u64) -> (t: Term)
        requires
            boxtype < 16,
            size < HEADER_SIZE_LIMIT,
        ensures
            t@ == (TermKind::Header { boxtype: boxtype as nat, size: size as nat }),
            t.value == (size * 16 + boxtype) * 4,
            t.value == word_of_kind(t@),
    {
        let w: u64 = (size * 16 + boxtype) * 4;
        proof {
            let q = size * 16 + boxtype;
            assert(w % 4 == 0);
            assert(w / 4 == q);
            assert(q % 16 == boxtype);
            assert(q / 16 == size);
            assert(w / 64 == size);
        }
        Term { value: w }
    }

    pub fn is_header(self) -> (b: bool)
        ensures
            b == (self@ is Header),
    {
        self.value % 4 == PRIMARY_HEADER
    }

    pub fn header_boxtype(self) -> (boxtype: u64)
        requires
            self@ is Header,
        ensures
            boxtype == self@->boxtype,
            boxtype < 16,
    {
        (self.value / 4) % 16
    }

    pub fn header_size(self) -> (size: u64)
        requires
            self@ is Header,
        ensures
            size == self@->size,
            size < HEADER_SIZE_LIMIT,
    {
        self.value / 64
    }

    /// Code pointer to word `offset` of a code image.
    pub fn make_cp(offset: u64) -> (t: Term)
        requires
            offset < SPECIAL_LIMIT,
        ensures
            t@ == TermKind::Cp(offset as nat),
            t.value == word_of_kind(t@),
    {
        Term { value: offset * 256 + SPECIAL_CP }
    }

    pub fn is_cp(self) -> (b: bool)
        ensures
            b == (self@ is Cp),
    {
        self.value % 256 == SPECIAL_CP
    }

    pub fn get_cp_offset(self) -> (offset: u64)
        requires
            self@ is Cp,
        ensures
            self@ == TermKind::Cp(offset as nat),
            offset < SPECIAL_LIMIT,
    {
        self.value / 256
    }

    pub fn make_regx(n: u64) -> (t: Term)
        requires
            n < SPECIAL_LIMIT,
        ensures
            t@ == TermKind::RegX(n as nat),
            t.value == word_of_kind(t@),
    {
        Term { value: n * 256 + SPECIAL_REGX }
    }

    pub fn is_regx(self) -> (b: bool)
        ensures
            b == (self@ is RegX),
    {
        self.value % 256 == SPECIAL_REGX
    }

    pub fn make_regy(n: u64) -> (t: Term)
        requires
            n < SPECIAL_LIMIT,
        ensures
            t@ == TermKind::RegY(n as nat),
            t.value == word_of_kind(t@),
    {
        Term { value: n * 256 + SPECIAL_REGY }
    }

    pub fn is_regy(self) -> (b: bool)
        ensures
            b == (self@ is RegY),
    {
        self.value % 256 == SPECIAL_REGY
    }

    pub fn make_regfp(n: u64) -> (t: Term)
        requires
            n < SPECIAL_LIMIT,
        ensures
            t@ == TermKind::RegFp(n as nat),
            t.value == word_of_kind(t@),
    {
        Term { value: n * 256 + SPECIAL_REGFP }
    }

    pub fn is_regfp(self) -> (b: bool)
        ensures
            b == (self@ is RegFp),
    {
        self.value % 256 == SPECIAL_REGFP
    }

    /// The value of a special immediate: the index of an atom or of a
    /// register, the offset of a code pointer, the number of an opcode.
    pub fn get_special_value(self) -> (n: u64)
        requires
            self@ is Atom || self@ is Cp || self@ is RegX || self@ is RegY || self@ is RegFp
                || self@ is Opcode,
        ensures
            n < SPECIAL_LIMIT,
            self@ is Atom ==> self@ == TermKind::Atom(n as nat),
            self@ is Cp ==> self@ == TermKind::Cp(n as nat),
            self@ is RegX ==> self@ == TermKind::RegX(n as nat),
            self@ is RegY ==> self@ == TermKind::RegY(n as nat),
            self@ is RegFp ==> self@ == TermKind::RegFp(n as nat),
            self@ is Opcode ==> self@ == TermKind::Opcode(n as nat),
    {
        self.value / 256
    }

    /// An opcode as a word of a code image.
    pub fn make_opcode(op: u8) -> (t: Term)
        ensures
            t@ == TermKind::Opcode(op as nat),
            t.value == word_of_kind(t@),
    {
        Term { value: (op as u64) * 256 + SPECIAL_OPCODE }
    }

    pub fn is_opcode(self) -> (b: bool)
        ensures
            b == (self@ is Opcode),
    {
        self.value % 256 == SPECIAL_OPCODE
    }

    /// A load-time term with sub-tag `tag` and value `val`.
    pub fn make_loadtime(tag: u64, val: u64) -> (t: Term)
        requires
            tag <= SPECIAL_LT_REGFP,
            val < LOADTIME_LIMIT,
        ensures
            t@ == (TermKind::Loadtime { tag: tag as nat, val: val as nat }),
            t.value == word_of_kind(t@),
    {
        Term { value: (val * 8 + tag) * 256 + SPECIAL_LOADTIME }
    }

    pub fn is_loadtime(self) -> (b: bool)
        ensures
            b == (self@ is Loadtime),
    {
        self.value % 256 == SPECIAL_LOADTIME && (self.value / 256) % 8 <= SPECIAL_LT_REGFP
    }

    pub fn get_loadtime_tag(self) -> (tag: u64)
        requires
            self@ is Loadtime,
        ensures
            tag == self@->tag,
            tag <= SPECIAL_LT_REGFP,
    {
        (self.value / 256) % 8
    }

    pub fn get_loadtime_val(self) -> (val: u64)
        requires
            self@ is Loadtime,
        ensures
            val == self@->val,
            val < LOADTIME_LIMIT,
    {
        (self.value / 256) / 8
    }
}

/// The word of a kind: the one word that has this kind.
pub open spec fn word_of_kind(k: TermKind) -> u64 {
    match k {
        TermKind::Header { boxtype, size } => ((size * 16 + boxtype) * 4) as u64,
        TermKind::Cons(p) => (p * 4 + PRIMARY_CONS) as u64,
        TermKind::Boxed(p) => (p * 4 + PRIMARY_BOXED) as u64,
        TermKind::Pid(v) => (v * 16 + IMMED_PID) as u64,
        TermKind::Port(v) => (v * 16 + IMMED_PORT) as u64,
        TermKind::Small(i) => word_of_small(i) as u64,
        TermKind::Atom(n) => (n * 256 + SPECIAL_ATOM) as u64,
        TermKind::Nil => SPECIAL_NIL,
        TermKind::Cp(n) => (n * 256 + SPECIAL_CP) as u64,
        TermKind::RegX(n) => (n * 256 + SPECIAL_REGX) as u64,
        TermKind::RegY(n) => (n * 256 + SPECIAL_REGY) as u64,
        TermKind::RegFp(n) => (n * 256 + SPECIAL_REGFP) as u64,
        TermKind::Opcode(n) => (n * 256 + SPECIAL_OPCODE) as u64,
        TermKind::Loadtime { tag, val } => ((val * 8 + tag) * 256 + SPECIAL_LOADTIME) as u64,
        TermKind::Invalid => 0xff,
    }
}

/// A term is the word of its kind.
pub proof fn lemma_word_of_kind(t: Term)
    requires
        !(t@ is Invalid),
    ensures
        t.value == word_of_kind(t@),
{
    let x = t.value;
    if x % 4 == PRIMARY_HEADER {
        lemma_header_word(x);
    } else if x % 4 == PRIMARY_CONS || x % 4 == PRIMARY_BOXED {
        assert(x == (x / 4) * 4 + x % 4);
    } else if x % 16 == IMMED_PID || x % 16 == IMMED_PORT {
        assert(x == (x / 16) * 16 + x % 16);
    } else if x % 16 == IMMED_SMALL {
        assert(x == (x / 16) * 16 + 15);
    } else {
        lemma_special_word(x);
    }
}

proof fn lemma_header_word(x: u64)
    requires
        x % 4 == 0,
    ensures
        x == ((x / 64) * 16 + (x / 4) % 16) * 4,
{
    let q = x / 4;
    assert(x == q * 4);
    assert(q == (q / 16) * 16 + q % 16);
    assert(q / 16 == x / 64);
}

proof fn lemma_special_word(x: u64)
    requires
        x % 16 == IMMED_SPECIAL,
        !(special_kind(x) is Invalid),
        kind_of_word(x) == special_kind(x),
    ensures
        x == word_of_kind(special_kind(x)),
{
    let v = x / 256;
    assert(x == v * 256 + x % 256);
    if x % 256 == SPECIAL_LOADTIME {
        assert(v == (v / 8) * 8 + v % 8);
    }
}

} // verus!
