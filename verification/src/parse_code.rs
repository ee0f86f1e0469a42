//! The code of a module: from the bytes of the code chunk to the words of
//! the code image.
//!
//! The bytes are a row of instructions, each an opcode byte and as many
//! operands as the opcode takes.  An instruction becomes the opcode word and
//! one word for each operand.  `label` and `line` become nothing: a label
//! only records the offset of the code behind it.
use vstd::prelude::*;
use crate::beam_file::copy_range;
use crate::bin_reader::BinaryReader;
use crate::compact_term::{extends, lemma_extends_trans, operand, read, Decoded};
use crate::fail::{Fault, RtErr};
use crate::gen_op::{
    arity_of, opcode_arity, opcode_valid, valid_opcode, RawOpcode, OPCODE_FUNC_INFO, OPCODE_LABEL,
    OPCODE_LINE,
};
use crate::heap::Heap;
use crate::module::{fun_key, store, ARITY_LIMIT};
use crate::jump_table::{jump_table_at, jump_table_count, JumpTable};
use crate::loader::{
    kind_is, label_patches, label_word, operand_kind, resolved, LoaderState, PatchLocation,
    CODE_LIMIT,
};
use crate::term::{
    word_of_kind, Term, TermKind, SPECIAL_LT_ATOM, SPECIAL_LT_LABEL, SPECIAL_LT_LITERAL,
    SPECIAL_LT_REGFP, SPECIAL_LT_REGX, SPECIAL_LT_REGY,
};

verus! {

/// What the loader builds while it reads the code.
pub struct Image {
    pub code: Seq<u64>,
    pub labels: Map<u64, usize>,
    pub patches: Seq<PatchLocation>,
    pub funs: Map<u64, usize>,
    /// The words of the literal heap.
    pub heap: Seq<u64>,
}

/// What the loader looks operands up in.
pub struct Lookup {
    pub atoms: Seq<Term>,
    pub literals: Seq<Term>,
    /// The limit of the literal heap.
    pub limit: nat,
}

impl LoaderState {
    pub open spec fn image(&self) -> Image {
        Image {
            code: self.code@,
            labels: self.labels@,
            patches: self.replace_labels@,
            funs: self.funs@,
            heap: self.lit_heap@,
        }
    }

    pub open spec fn lookup(&self) -> Lookup {
        Lookup { atoms: self.vm_atoms@, literals: self.lit_tab@, limit: self.lit_heap.limit() }
    }

    /// What holds of the code at every step of a load: it is within the
    /// limit, every label lies within it, and it holds no load-time term
    /// and no code pointer to a place outside of it.
    pub open spec fn code_wf(&self) -> bool {
        &&& self.tables_wf()
        &&& self.code@.len() <= CODE_LIMIT
        &&& labels_within(self.labels@, self.code@.len())
        &&& clean_code(self.code@)
    }
}

/// Whether every label lies within the first `len` words, or just behind
/// them.
pub open spec fn labels_within(labels: Map<u64, usize>, len: nat) -> bool {
    forall|k: u64| #[trigger] labels.contains_key(k) ==> labels[k] <= len
}

/// Whether the word can stand in a code image of `len` words: it is no
/// load-time term, and a code pointer points to one of the words.
pub open spec fn clean_word(w: u64, len: nat) -> bool {
    let k = (Term { value: w })@;
    &&& !(k is Loadtime)
    &&& k is Cp ==> k->Cp_0 < len
}

/// Whether every word of the code can stand in it.
pub open spec fn clean_code(code: Seq<u64>) -> bool {
    forall|i: int| 0 <= i < code.len() ==> clean_word(#[trigger] code[i], code.len())
}

/// The term of a register with this load-time sub-tag.
pub open spec fn register_term(tag: nat, val: nat) -> Term {
    Term {
        value: if tag == SPECIAL_LT_REGX {
            word_of_kind(TermKind::RegX(val))
        } else if tag == SPECIAL_LT_REGY {
            word_of_kind(TermKind::RegY(val))
        } else {
            word_of_kind(TermKind::RegFp(val))
        },
    }
}

/// The term that stands in the code image for an operand that is neither a
/// label nor a jump table: an atom index becomes the atom, a literal index
/// the literal, a register reference the register, and a value stays what
/// it is.  Anything else is no operand: operand `argi` of `op` is bad.
pub open spec fn runtime_term(lk: Lookup, t: Term, op: u8, argi: usize) -> Result<Term, Fault> {
    if t@ is Loadtime {
        if t@->tag == SPECIAL_LT_ATOM {
            resolved(lk.atoms, t)
        } else if t@->tag == SPECIAL_LT_LITERAL {
            if t@->val < lk.literals.len() {
                Ok(lk.literals[t@->val as int])
            } else {
                Err(Fault::BadArg(op, argi))
            }
        } else if t@->tag == SPECIAL_LT_LABEL {
            Err(Fault::BadArg(op, argi))
        } else {
            Ok(register_term(t@->tag, t@->val))
        }
    } else if operand_kind(t@) {
        Ok(t)
    } else {
        Err(Fault::BadArg(op, argi))
    }
}

/// The image with one more word of code.  Fails where the code is full.
pub open spec fn pushed(img: Image, w: u64) -> Result<Image, Fault> {
    if img.code.len() >= CODE_LIMIT {
        Err(Fault::HeapOutOfMemory)
    } else {
        Ok(Image { code: img.code.push(w), ..img })
    }
}

/// The image after pairs `k` to `n` of the jump table `jt` were walked.  The
/// value of a pair becomes its runtime term.  The label of a pair becomes a
/// code pointer where the label is known; else it becomes the label's
/// number, and the element is remembered for the fixup.  A nil label stays.
pub open spec fn store_pairs(
    img: Image,
    lk: Lookup,
    jt: Term,
    k: nat,
    n: nat,
    op: u8,
    argi: usize,
) -> Result<Image, Fault>
    decreases n - k,
{
    if k >= n {
        Ok(img)
    } else {
        let at = (jt@->Boxed_0 + 2 + 2 * k) as int;
        let label = Term { value: img.heap[at + 1] };
        match runtime_term(lk, Term { value: img.heap[at] }, op, argi) {
            Err(f) => Err(f),
            Ok(value) => if label@ is Nil {
                store_pairs(
                    Image { heap: img.heap.update(at, value.value), ..img },
                    lk,
                    jt,
                    k + 1,
                    n,
                    op,
                    argi,
                )
            } else if label@ is Loadtime && label@->tag == SPECIAL_LT_LABEL {
                store_pairs(
                    Image {
                        heap: img.heap.update(at, value.value).update(
                            at + 1,
                            label_word(img.labels, label@->val as u64),
                        ),
                        patches: label_patches(
                            img.labels,
                            label@->val as u64,
                            PatchLocation::PatchJumpTable(jt, (2 * k + 1) as usize),
                            img.patches,
                        ),
                        ..img
                    },
                    lk,
                    jt,
                    k + 1,
                    n,
                    op,
                    argi,
                )
            } else {
                Err(Fault::BadArg(op, argi))
            },
        }
    }
}

/// The image after operand `argi` of `op` was stored.  A jump table is
/// stored as the pointer to it, and its pairs are walked.  A label is
/// stored as a code pointer where it is known; else as its number, and the
/// word is remembered for the fixup.  Any other operand is stored as its
/// runtime term.
pub open spec fn store_arg(img: Image, lk: Lookup, t: Term, op: u8, argi: usize) -> Result<
    Image,
    Fault,
> {
    if img.code.len() >= CODE_LIMIT {
        Err(Fault::HeapOutOfMemory)
    } else if t@ is Boxed && jump_table_at(img.heap, t@->Boxed_0 as int) {
        store_pairs(
            Image { code: img.code.push(t.value), ..img },
            lk,
            t,
            0,
            jump_table_count(img.heap, t@->Boxed_0 as int),
            op,
            argi,
        )
    } else if t@ is Loadtime && t@->tag == SPECIAL_LT_LABEL {
        Ok(
            Image {
                code: img.code.push(label_word(img.labels, t@->val as u64)),
                patches: label_patches(
                    img.labels,
                    t@->val as u64,
                    PatchLocation::PatchCodeOffset(img.code.len() as usize),
                    img.patches,
                ),
                ..img
            },
        )
    } else {
        match runtime_term(lk, t, op, argi) {
            Err(f) => Err(f),
            Ok(r) => Ok(Image { code: img.code.push(r.value), ..img }),
        }
    }
}

/// The image after the operands from `i` on were stored.
pub open spec fn store_args(img: Image, lk: Lookup, args: Seq<Term>, i: nat, op: u8) -> Result<
    Image,
    Fault,
>
    decreases args.len() - i,
{
    if i >= args.len() {
        Ok(img)
    } else {
        match store_arg(img, lk, args[i as int], op, i as usize) {
            Err(f) => Err(f),
            Ok(next) => store_args(next, lk, args, i + 1, op),
        }
    }
}

/// Whether `r` and the loader after the call are what `expected` says.
pub open spec fn gives_image(expected: Result<Image, Fault>, r: Result<(), RtErr>, after: LoaderState) -> bool {
    match expected {
        Ok(img) => r is Ok && after.image() == img,
        Err(f) => r matches Err(e) && e@ == f,
    }
}

/// Whether the loader differs from what it was in nothing but the image.
pub open spec fn same_tables(after: LoaderState, before: LoaderState) -> bool {
    &&& after.beam_file == before.beam_file
    &&& after.name == before.name
    &&& after.vm_atoms == before.vm_atoms
    &&& after.lit_tab == before.lit_tab
    &&& after.lit_heap.limit() == before.lit_heap.limit()
    &&& after.imports == before.imports
    &&& after.lambdas == before.lambdas
}

impl LoaderState {
    /// The runtime term of an operand that is neither a label nor a jump
    /// table.
    pub fn runtime_operand(&self, t: Term, op: RawOpcode, argi: usize) -> (r: Result<Term, RtErr>)
        requires
            self.tables_wf(),
        ensures
            match runtime_term(self.lookup(), t, op.0, argi) {
                Ok(term) => r == Ok::<Term, RtErr>(term) && operand_kind(term@),
                Err(f) => r matches Err(e) && e@ == f,
            },
    {
        if t.is_loadtime() {
            let tag: u64 = t.get_loadtime_tag();
            let val: u64 = t.get_loadtime_val();
            if tag == SPECIAL_LT_ATOM {
                self.resolve_value(t)
            } else if tag == SPECIAL_LT_LITERAL {
                if val < self.lit_tab.len() as u64 {
                    Ok(self.lit_tab[val as usize])
                } else {
                    Err(RtErr::BadArg(op.0, argi))
                }
            } else if tag == SPECIAL_LT_LABEL {
                Err(RtErr::BadArg(op.0, argi))
            } else if tag == SPECIAL_LT_REGX {
                Ok(Term::make_regx(val))
            } else if tag == SPECIAL_LT_REGY {
                Ok(Term::make_regy(val))
            } else {
                Ok(Term::make_regfp(val))
            }
        } else if t.is_small() || t.is_atom() || t.is_nil() || t.is_boxed() || t.is_cons()
            || t.is_regx() || t.is_regy() || t.is_regfp() || t.is_pid() || t.is_port() {
            Ok(t)
        } else {
            Err(RtErr::BadArg(op.0, argi))
        }
    }

    /// Walks the pairs of the jump table at `table`, to which `jt` points.
    fn store_jump_table(&mut self, jt: Term, table: usize, op: RawOpcode, argi: usize) -> (r:
        Result<(), RtErr>)
        requires
            old(self).code_wf(),
            jt@ == TermKind::Boxed(table as nat),
            jump_table_at(old(self).lit_heap@, table as int),
        ensures
            same_tables(*final(self), *old(self)),
            gives_image(
                store_pairs(
                    old(self).image(),
                    old(self).lookup(),
                    jt,
                    0,
                    jump_table_count(old(self).lit_heap@, table as int),
                    op.0,
                    argi,
                ),
                r,
                *final(self),
            ),
            r is Ok ==> {
                &&& final(self).code_wf()
                &&& final(self).code@ == old(self).code@
                &&& final(self).labels@ == old(self).labels@
                &&& final(self).funs@ == old(self).funs@
                &&& final(self).lit_heap@.len() == old(self).lit_heap@.len()
            },
    {
        let n: usize = JumpTable::get_count(&self.lit_heap, table);
        proof {
            self.lit_heap.lemma_len_bound();
        }
        let ghost whole = store_pairs(self.image(), self.lookup(), jt, 0, n as nat, op.0, argi);
        let ghost lk = self.lookup();
        let mut k: usize = 0;
        while k < n
            invariant
                k <= n,
                table + 2 + 2 * n <= usize::MAX,
                same_tables(*self, *old(self)),
                self.code_wf(),
                self.code@ == old(self).code@,
                self.labels@ == old(self).labels@,
                self.funs@ == old(self).funs@,
                self.lit_heap@.len() == old(self).lit_heap@.len(),
                lk == self.lookup(),
                jt@ == TermKind::Boxed(table as nat),
                jump_table_at(self.lit_heap@, table as int),
                jump_table_count(self.lit_heap@, table as int) == n,
                store_pairs(self.image(), lk, jt, k as nat, n as nat, op.0, argi) == whole,
                whole == store_pairs(
                    old(self).image(),
                    old(self).lookup(),
                    jt,
                    0,
                    jump_table_count(old(self).lit_heap@, table as int),
                    op.0,
                    argi,
                ),
            decreases n - k,
        {
            let (value, label) = JumpTable::get_pair(&self.lit_heap, table, k);
            let stored: Term = match self.runtime_operand(value, op, argi) {
                Ok(t) => t,
                Err(e) => {
                    return Err(e);
                },
            };
            if label.is_nil() {
                JumpTable::set_element(&mut self.lit_heap, table, 2 * k, stored);
            } else if label.is_loadtime() && label.get_loadtime_tag() == SPECIAL_LT_LABEL {
                let l: u64 = label.get_loadtime_val();
                JumpTable::set_element(&mut self.lit_heap, table, 2 * k, stored);
                let w: u64 = self.maybe_convert_label(
                    l,
                    PatchLocation::PatchJumpTable(jt, 2 * k + 1),
                );
                JumpTable::set_element(&mut self.lit_heap, table, 2 * k + 1, Term::from_raw(w));
            } else {
                return Err(RtErr::BadArg(op.0, argi));
            }
            k += 1;
        }
        Ok(())
    }

    /// Appends a word to the code.  Fails, and appends nothing, exactly when
    /// the code is full.
    fn push_word(&mut self, w: u64) -> (r: Result<(), RtErr>)
        requires
            old(self).code_wf(),
            clean_word(w, old(self).code@.len() + 1),
        ensures
            same_tables(*final(self), *old(self)),
            final(self).lit_heap == old(self).lit_heap,
            final(self).labels == old(self).labels,
            final(self).funs == old(self).funs,
            final(self).replace_labels == old(self).replace_labels,
            old(self).code@.len() < CODE_LIMIT ==> r is Ok && final(self).code@ == old(
                self,
            ).code@.push(w) && final(self).code_wf(),
            old(self).code@.len() >= CODE_LIMIT ==> r == Err::<(), RtErr>(RtErr::HeapOutOfMemory)
                && final(self).code@ == old(self).code@,
    {
        if self.code.len() >= CODE_LIMIT {
            return Err(RtErr::HeapOutOfMemory);
        }
        self.code.push(w);
        Ok(())
    }

    /// Stores operand `argi` of an instruction.
    fn store_one_arg(&mut self, op: RawOpcode, a: Term, argi: usize) -> (r: Result<(), RtErr>)
        requires
            old(self).code_wf(),
        ensures
            same_tables(*final(self), *old(self)),
            gives_image(
                store_arg(old(self).image(), old(self).lookup(), a, op.0, argi),
                r,
                *final(self),
            ),
            r is Ok ==> {
                &&& final(self).code_wf()
                &&& final(self).labels@ == old(self).labels@
                &&& final(self).funs@ == old(self).funs@
                &&& final(self).code@.len() == old(self).code@.len() + 1
                &&& final(self).lit_heap@.len() == old(self).lit_heap@.len()
            },
    {
        if self.code.len() >= CODE_LIMIT {
            return Err(RtErr::HeapOutOfMemory);
        }
        match JumpTable::from_term(&self.lit_heap, a) {
            Ok(table) => {
                match self.push_word(a.raw()) {
                    Ok(()) => self.store_jump_table(a, table, op, argi),
                    Err(e) => Err(e),
                }
            },
            Err(e) => {
                if a.is_loadtime() && a.get_loadtime_tag() == SPECIAL_LT_LABEL {
                    let at: usize = self.code.len();
                    let w: u64 = self.maybe_convert_label(
                        a.get_loadtime_val(),
                        PatchLocation::PatchCodeOffset(at),
                    );
                    self.push_word(w)
                } else {
                    match self.runtime_operand(a, op, argi) {
                        Ok(t) => self.push_word(t.raw()),
                        Err(e) => Err(e),
                    }
                }
            },
        }
    }

    /// Stores the operands of an instruction behind its opcode.
    pub fn store_opcode_args(&mut self, op: RawOpcode, args: &[Term]) -> (r: Result<(), RtErr>)
        requires
            old(self).code_wf(),
        ensures
            same_tables(*final(self), *old(self)),
            gives_image(
                store_args(old(self).image(), old(self).lookup(), args@, 0, op.0),
                r,
                *final(self),
            ),
            r is Ok ==> {
                &&& final(self).code_wf()
                &&& final(self).labels@ == old(self).labels@
                &&& final(self).funs@ == old(self).funs@
                &&& final(self).code@.len() == old(self).code@.len() + args@.len()
                &&& final(self).lit_heap@.len() == old(self).lit_heap@.len()
            },
    {
        let ghost whole = store_args(self.image(), self.lookup(), args@, 0, op.0);
        let ghost lk = self.lookup();
        let mut i: usize = 0;
        while i < args.len()
            invariant
                i <= args@.len(),
                same_tables(*self, *old(self)),
                self.code_wf(),
                self.labels@ == old(self).labels@,
                self.funs@ == old(self).funs@,
                self.code@.len() == old(self).code@.len() + i,
                self.lit_heap@.len() == old(self).lit_heap@.len(),
                lk == self.lookup(),
                store_args(self.image(), lk, args@, i as nat, op.0) == whole,
                whole == store_args(old(self).image(), old(self).lookup(), args@, 0, op.0),
            decreases args@.len() - i,
        {
            match self.store_one_arg(op, args[i], i) {
                Ok(()) => {},
                Err(e) => {
                    return Err(e);
                },
            }
            i += 1;
        }
        Ok(())
    }
}

/// An instruction as it was read: the opcode, and the operands with their
/// atoms resolved.  It lives between the reading of an instruction and the
/// writing of its words.
#[derive(Debug)]
pub struct LtInstruction {
    pub opcode: RawOpcode,
    pub args: Vec<Term>,
}

impl LtInstruction {
    pub fn new() -> (instr: Self)
        ensures
            instr.opcode == RawOpcode(0),
            instr.args@.len() == 0,
    {
        Self { opcode: RawOpcode(0), args: Vec::new() }
    }

    /// Begins the next instruction: sets the opcode and drops the operands.
    pub fn next(&mut self, op_byte: u8)
        ensures
            final(self).opcode == RawOpcode(op_byte),
            final(self).args@.len() == 0,
    {
        self.opcode = RawOpcode(op_byte);
        self.args.clear();
    }
}

/// The word of an opcode.
pub open spec fn opcode_word(op: u8) -> u64 {
    word_of_kind(TermKind::Opcode(op as nat))
}

/// What reading the operands of an instruction gives: the operands, the
/// position behind them and the words that they add to the heap, or a
/// fault.
pub enum ArgsRead {
    Done { args: Seq<Term>, next: int, added: Seq<u64> },
    Fail(Fault),
}

/// `n` operands from `pos` on, each decoded and its atom index resolved,
/// behind the operands `args` that added `grown` to a heap of `used` words.
pub open spec fn read_args(
    bytes: Seq<u8>,
    pos: int,
    n: nat,
    used: nat,
    lk: Lookup,
    args: Seq<Term>,
    grown: Seq<u64>,
) -> ArgsRead
    decreases n,
{
    if n == 0 {
        ArgsRead::Done { args, next: pos, added: grown }
    } else {
        match operand(bytes, pos, used + grown.len(), lk.limit) {
            Decoded::Fail(f) => ArgsRead::Fail(f),
            Decoded::Done { kind, next, added } => match resolved(
                lk.atoms,
                Term { value: word_of_kind(kind) },
            ) {
                Err(f) => ArgsRead::Fail(f),
                Ok(t) => read_args(
                    bytes,
                    next,
                    (n - 1) as nat,
                    used,
                    lk,
                    args.push(t),
                    grown + added,
                ),
            },
        }
    }
}

/// The image after an instruction was written.  `label` writes nothing and
/// records the offset of the code behind it.  `line` writes nothing.
/// `func_info` is written, and enters the function in the function table:
/// its code begins behind the four words of the `func_info`.  Any other
/// instruction is written: the opcode word, then the operands.
pub open spec fn emit_instruction(img: Image, lk: Lookup, op: u8, args: Seq<Term>) -> Result<
    Image,
    Fault,
> {
    if op == OPCODE_LABEL {
        if args[0]@ is Small && args[0]@->Small_0 >= 0 {
            Ok(
                Image {
                    labels: img.labels.insert(args[0]@->Small_0 as u64, img.code.len() as usize),
                    ..img
                },
            )
        } else {
            Err(Fault::BadArg(op, 0))
        }
    } else if op == OPCODE_LINE {
        Ok(img)
    } else if img.code.len() >= CODE_LIMIT {
        Err(Fault::HeapOutOfMemory)
    } else if op == OPCODE_FUNC_INFO {
        if !(args[1]@ is Atom) {
            Err(Fault::BadArg(op, 1))
        } else if !(args[2]@ is Small && 0 <= args[2]@->Small_0 < ARITY_LIMIT) {
            Err(Fault::BadArg(op, 2))
        } else {
            store_args(
                Image {
                    code: img.code.push(opcode_word(op)),
                    funs: img.funs.insert(
                        fun_key(args[1]@->Atom_0, args[2]@->Small_0 as nat) as u64,
                        (img.code.len() + 4) as usize,
                    ),
                    ..img
                },
                lk,
                args,
                0,
                op,
            )
        }
    } else {
        store_args(Image { code: img.code.push(opcode_word(op)), ..img }, lk, args, 0, op)
    }
}

/// The instruction at `pos`: where it ends, and the image after it was
/// written.  A byte that names no instruction fails with `BadOpcode`.
#[verifier::opaque]
pub open spec fn instruction_at(bytes: Seq<u8>, pos: int, img: Image, lk: Lookup) -> Result<
    (int, Image),
    Fault,
> {
    if !valid_opcode(bytes[pos]) {
        Err(Fault::BadOpcode(bytes[pos]))
    } else {
        match read_args(
            bytes,
            pos + 1,
            arity_of(bytes[pos]) as nat,
            img.heap.len(),
            lk,
            Seq::<Term>::empty(),
            Seq::<u64>::empty(),
        ) {
            ArgsRead::Fail(f) => Err(f),
            ArgsRead::Done { args, next, added } => match emit_instruction(
                Image { heap: img.heap + added, ..img },
                lk,
                bytes[pos],
                args,
            ) {
                Err(f) => Err(f),
                Ok(after) => Ok((next, after)),
            },
        }
    }
}

/// The image after the instructions from `pos` on were written.  (An
/// instruction ends behind the place where it begins; the test for that is
/// there for the recursion only.)
pub open spec fn emit_from(bytes: Seq<u8>, pos: int, img: Image, lk: Lookup) -> Result<
    Image,
    Fault,
>
    decreases bytes.len() - pos,
{
    if pos < 0 || pos >= bytes.len() {
        Ok(img)
    } else {
        match instruction_at(bytes, pos, img, lk) {
            Err(f) => Err(f),
            Ok(step) => if step.0 <= pos || step.0 > bytes.len() {
                Err(Fault::UnexpectedEof)
            } else {
                emit_from(bytes, step.0, step.1, lk)
            },
        }
    }
}

/// Where `n` operands from `pos` on end, and how many words the heap holds
/// behind them; `None` where one of them cannot be decoded.
pub open spec fn skip_args(bytes: Seq<u8>, pos: int, n: nat, used: nat, limit: nat) -> Option<
    (int, nat),
>
    decreases n,
{
    if n == 0 {
        Some((pos, used))
    } else {
        match operand(bytes, pos, used, limit) {
            Decoded::Fail(f) => None,
            Decoded::Done { kind, next, added } => skip_args(
                bytes,
                next,
                (n - 1) as nat,
                used + added.len(),
                limit,
            ),
        }
    }
}

/// Where the instruction at `pos` ends, and how many words the heap holds
/// behind it; `None` where the bytes at `pos` are no instruction.
#[verifier::opaque]
pub open spec fn instruction_end(bytes: Seq<u8>, pos: int, used: nat, limit: nat) -> Option<
    (int, nat),
> {
    if !valid_opcode(bytes[pos]) {
        None
    } else {
        skip_args(bytes, pos + 1, arity_of(bytes[pos]) as nat, used, limit)
    }
}

/// The words that the instructions from `pos` on take at most: one for
/// each opcode and one for each operand.  `None` where the bytes are no row
/// of instructions.
pub open spec fn size_from(bytes: Seq<u8>, pos: int, used: nat, limit: nat) -> Option<nat>
    decreases bytes.len() - pos,
{
    if pos < 0 || pos >= bytes.len() {
        Some(0)
    } else {
        match instruction_end(bytes, pos, used, limit) {
            None => None,
            Some(end) => if end.0 <= pos || end.0 > bytes.len() {
                None
            } else {
                match size_from(bytes, end.0, end.1, limit) {
                    None => None,
                    Some(rest) => Some((arity_of(bytes[pos]) + 1 + rest) as nat),
                }
            },
        }
    }
}

/// Operands that are read are operands that can be skipped, and they end
/// in the same place.
pub proof fn lemma_read_is_skip(
    bytes: Seq<u8>,
    pos: int,
    n: nat,
    used: nat,
    lk: Lookup,
    args: Seq<Term>,
    grown: Seq<u64>,
)
    ensures
        read_args(bytes, pos, n, used, lk, args, grown) matches ArgsRead::Done {
            args: all,
            next,
            added,
        } ==> skip_args(bytes, pos, n, used + grown.len(), lk.limit) == Some(
            (next, used + added.len()),
        ) && all.len() == args.len() + n,
    decreases n,
{
    if n > 0 {
        match operand(bytes, pos, used + grown.len(), lk.limit) {
            Decoded::Fail(f) => {},
            Decoded::Done { kind, next, added } => {
                match resolved(lk.atoms, Term { value: word_of_kind(kind) }) {
                    Err(f) => {},
                    Ok(t) => {
                        lemma_read_is_skip(
                            bytes,
                            next,
                            (n - 1) as nat,
                            used,
                            lk,
                            args.push(t),
                            grown + added,
                        );
                    },
                }
            },
        }
    }
}

/// Whether the loader differs from what it was in nothing but the literal
/// heap, which has grown.
pub open spec fn heap_grown(after: LoaderState, before: LoaderState) -> bool {
    &&& same_tables(after, before)
    &&& after.code == before.code
    &&& after.labels == before.labels
    &&& after.replace_labels == before.replace_labels
    &&& after.funs == before.funs
    &&& extends(after.lit_heap@, before.lit_heap@)
}

impl LoaderState {
    /// Reads the operands of an instruction and resolves their atoms.
    fn read_operands(&mut self, r: &mut BinaryReader, instr: &mut LtInstruction) -> (res: Result<
        (),
        RtErr,
    >)
        requires
            old(instr).args@.len() == 0,
        ensures
            heap_grown(*final(self), *old(self)),
            final(r).bytes() == old(r).bytes(),
            final(r).pos() >= old(r).pos(),
            final(instr).opcode == old(instr).opcode,
            match read_args(
                old(r).bytes(),
                old(r).pos() as int,
                arity_of(old(instr).opcode.0) as nat,
                old(self).lit_heap@.len(),
                old(self).lookup(),
                Seq::<Term>::empty(),
                Seq::<u64>::empty(),
            ) {
                ArgsRead::Done { args, next, added } => {
                    &&& res is Ok
                    &&& final(instr).args@ == args
                    &&& final(r).pos() == next
                    &&& final(self).lit_heap@ == old(self).lit_heap@ + added
                },
                ArgsRead::Fail(f) => res matches Err(e) && e@ == f,
            },
    {
        let arity: u8 = opcode_arity(instr.opcode);
        let ghost bytes = r.bytes();
        let ghost lk = self.lookup();
        let ghost start = self.lit_heap@;
        let ghost whole = read_args(
            bytes,
            r.pos() as int,
            arity as nat,
            start.len(),
            lk,
            Seq::<Term>::empty(),
            Seq::<u64>::empty(),
        );
        let ghost mut grown = Seq::<u64>::empty();
        let mut k: u8 = 0;
        proof {
            assert(instr.args@ =~= Seq::<Term>::empty());
            assert(start + grown =~= start);
            assert(start.subrange(0, start.len() as int) =~= start);
        }
        while k < arity
            invariant
                k <= arity,
                heap_grown(*self, *old(self)),
                r.bytes() == bytes,
                bytes == old(r).bytes(),
                r.pos() >= old(r).pos(),
                instr.opcode == old(instr).opcode,
                lk == self.lookup(),
                start == old(self).lit_heap@,
                self.lit_heap@ == start + grown,
                read_args(bytes, r.pos() as int, (arity - k) as nat, start.len(), lk, instr.args@, grown)
                    == whole,
                whole == read_args(
                    old(r).bytes(),
                    old(r).pos() as int,
                    arity_of(old(instr).opcode.0) as nat,
                    old(self).lit_heap@.len(),
                    old(self).lookup(),
                    Seq::<Term>::empty(),
                    Seq::<u64>::empty(),
                ),
            decreases arity - k,
        {
            let ghost before = self.lit_heap@;
            let ghost at = r.pos() as int;
            let arg0: Term = match read(r, &mut self.lit_heap) {
                Ok(t) => t,
                Err(e) => {
                    proof {
                        lemma_extends_trans(old(self).lit_heap@, before, self.lit_heap@);
                    }
                    return Err(e);
                },
            };
            proof {
                lemma_extends_trans(old(self).lit_heap@, before, self.lit_heap@);
                let d = operand(bytes, at, before.len(), lk.limit);
                assert(self.lit_heap@ =~= start + (grown + d->added));
                grown = grown + d->added;
            }
            let arg1: Term = match self.resolve_value(arg0) {
                Ok(t) => t,
                Err(e) => {
                    return Err(e);
                },
            };
            instr.args.push(arg1);
            k += 1;
        }
        Ok(())
    }

    /// Writes an instruction into the code.
    fn emit(&mut self, instr: &LtInstruction) -> (r: Result<(), RtErr>)
        requires
            old(self).code_wf(),
            instr.args@.len() == arity_of(instr.opcode.0),
        ensures
            same_tables(*final(self), *old(self)),
            gives_image(
                emit_instruction(old(self).image(), old(self).lookup(), instr.opcode.0, instr.args@),
                r,
                *final(self),
            ),
            r is Ok ==> {
                &&& final(self).code_wf()
                &&& final(self).code@.len() <= old(self).code@.len() + instr.args@.len() + 1
                &&& final(self).lit_heap@.len() == old(self).lit_heap@.len()
            },
    {
        let op: u8 = instr.opcode.0;
        if op == OPCODE_LABEL {
            let f: Term = instr.args[0];
            if f.is_small() && f.get_small_signed() >= 0 {
                let floc: usize = self.code.len();
                store(&mut self.labels, f.get_small_unsigned(), floc);
                Ok(())
            } else {
                Err(op_badarg(instr.opcode, 0))
            }
        } else if op == OPCODE_LINE {
            Ok(())
        } else if self.code.len() >= CODE_LIMIT {
            Err(RtErr::HeapOutOfMemory)
        } else if op == OPCODE_FUNC_INFO {
            let f: Term = instr.args[1];
            let a: Term = instr.args[2];
            if !f.is_atom() {
                return Err(op_badarg(instr.opcode, 1));
            }
            if !a.is_small() {
                return Err(op_badarg(instr.opcode, 2));
            }
            let arity: i64 = a.get_small_signed();
            if arity < 0 || arity >= ARITY_LIMIT as i64 {
                return Err(op_badarg(instr.opcode, 2));
            }
            let fun_begin: usize = self.code.len() + 4;
            store(&mut self.funs, f.atom_index() * 256 + arity as u64, fun_begin);
            match self.push_word(Term::make_opcode(op).raw()) {
                Ok(()) => self.store_opcode_args(instr.opcode, instr.args.as_slice()),
                Err(e) => Err(e),
            }
        } else {
            match self.push_word(Term::make_opcode(op).raw()) {
                Ok(()) => self.store_opcode_args(instr.opcode, instr.args.as_slice()),
                Err(e) => Err(e),
            }
        }
    }

    /// Reads the instruction at the cursor and writes it into the code.
    fn parse_instruction(&mut self, r: &mut BinaryReader, instr: &mut LtInstruction) -> (res:
        Result<(), RtErr>)
        requires
            old(self).code_wf(),
            old(r).has(1),
        ensures
            same_tables(*final(self), *old(self)),
            final(r).bytes() == old(r).bytes(),
            final(r).pos() > old(r).pos(),
            match instruction_at(
                old(r).bytes(),
                old(r).pos() as int,
                old(self).image(),
                old(self).lookup(),
            ) {
                Ok(step) => {
                    &&& res is Ok
                    &&& final(r).pos() == step.0
                    &&& final(self).image() == step.1
                    &&& final(self).code_wf()
                    &&& final(self).code@.len() <= old(self).code@.len() + arity_of(
                        old(r).bytes()[old(r).pos() as int],
                    ) + 1
                    &&& instruction_end(
                        old(r).bytes(),
                        old(r).pos() as int,
                        old(self).lit_heap@.len(),
                        old(self).lit_heap.limit(),
                    ) == Some((final(r).pos() as int, final(self).lit_heap@.len()))
                },
                Err(f) => res matches Err(e) && e@ == f,
            },
    {
        reveal(instruction_at);
        reveal(instruction_end);
        let ghost bytes = r.bytes();
        let ghost pos = r.pos() as int;
        let ghost lk = self.lookup();
        let op_byte: u8 = match r.read_u8() {
            Ok(b) => b,
            Err(e) => {
                return Err(e);
            },
        };
        instr.next(op_byte);
        if !opcode_valid(instr.opcode) {
            return Err(RtErr::BadOpcode(op_byte));
        }
        match self.read_operands(r, instr) {
            Ok(()) => {},
            Err(e) => {
                return Err(e);
            },
        }
        proof {
            lemma_read_is_skip(
                bytes,
                pos + 1,
                arity_of(op_byte) as nat,
                old(self).lit_heap@.len(),
                lk,
                Seq::<Term>::empty(),
                Seq::<u64>::empty(),
            );
            assert(self.image() == (Image { heap: self.lit_heap@, ..old(self).image() }));
        }
        self.emit(instr)
    }

    /// Skips the instruction at the cursor.  Returns the number of its
    /// operands.
    fn skip_instruction(r: &mut BinaryReader, scratch: &mut Heap) -> (res: Option<u8>)
        requires
            old(r).has(1),
        ensures
            final(r).bytes() == old(r).bytes(),
            final(r).pos() > old(r).pos(),
            final(scratch).limit() == old(scratch).limit(),
            match instruction_end(
                old(r).bytes(),
                old(r).pos() as int,
                old(scratch)@.len(),
                old(scratch).limit(),
            ) {
                Some(end) => {
                    &&& res == Some(arity_of(old(r).bytes()[old(r).pos() as int]))
                    &&& final(r).pos() == end.0
                    &&& final(scratch)@.len() == end.1
                },
                None => res.is_none(),
            },
    {
        reveal(instruction_end);
        let ghost all = r.bytes();
        let ghost pos = r.pos() as int;
        let ghost used = scratch@.len();
        let ghost limit = scratch.limit();
        let op = match r.read_u8() {
            Ok(b) => RawOpcode(b),
            Err(e) => {
                return None;
            },
        };
        if !opcode_valid(op) {
            return None;
        }
        let arity: u8 = opcode_arity(op);
        let mut k: u8 = 0;
        while k < arity
            invariant
                k <= arity,
                r.bytes() == all,
                all == old(r).bytes(),
                pos == old(r).pos(),
                0 <= pos < all.len(),
                r.pos() > pos,
                scratch.limit() == limit,
                limit == old(scratch).limit(),
                used == old(scratch)@.len(),
                valid_opcode(all[pos]),
                arity == arity_of(all[pos]),
                skip_args(all, r.pos() as int, (arity - k) as nat, scratch@.len(), limit)
                    == skip_args(all, pos + 1, arity as nat, used, limit),
            decreases arity - k,
        {
            match read(r, scratch) {
                Ok(t) => {},
                Err(e) => {
                    proof {
                        reveal(instruction_end);
                    }
                    return None;
                },
            }
            k += 1;
        }
        Some(arity)
    }

    /// The number of words that the code of the module takes at most: the
    /// sum, over its instructions, of one and the number of operands.
    /// `None` where the bytes are no row of instructions, or where the sum
    /// is above the limit of a code image.
    pub fn code_size(&self, bytes: Vec<u8>) -> (res: Option<usize>)
        ensures
            match size_from(bytes@, 0, self.lit_heap@.len(), self.lit_heap.limit()) {
                Some(s) => if s <= CODE_LIMIT {
                    res == Some(s as usize)
                } else {
                    res.is_none()
                },
                None => res.is_none(),
            },
    {
        let ghost all = bytes@;
        let ghost limit = self.lit_heap.limit();
        let ghost whole = size_from(all, 0, self.lit_heap@.len(), limit);
        let mut scratch: Heap = self.lit_heap.duplicate();
        let mut r = BinaryReader::from_bytes(bytes);
        let mut s: usize = 0;
        while !r.eof()
            invariant
                r.bytes() == all,
                all == bytes@,
                scratch.limit() == limit,
                limit == self.lit_heap.limit(),
                s <= CODE_LIMIT,
                whole == size_from(all, 0, self.lit_heap@.len(), limit),
                size_from(all, r.pos() as int, scratch@.len(), limit) matches Some(rest) ==> whole
                    == Some((s + rest) as nat),
                size_from(all, r.pos() as int, scratch@.len(), limit) is None ==> whole is None,
            decreases all.len() - r.pos(),
        {
            let arity: u8 = match Self::skip_instruction(&mut r, &mut scratch) {
                Some(a) => a,
                None => {
                    return None;
                },
            };
            proof {
                r.lemma_pos_bound();
            }
            if s > CODE_LIMIT - (arity as usize + 1) {
                return None;
            }
            s = s + arity as usize + 1;
        }
        Some(s)
    }

    /// Decodes the code of the module into the code image.
    ///
    /// A first pass over the bytes counts the words that the code takes,
    /// and room for them is reserved.  A second pass writes the words.  It
    /// never writes more of them than the first pass counted.
    pub fn parse_raw_code(&mut self) -> (r: Result<(), RtErr>)
        requires
            old(self).code_wf(),
        ensures
            same_tables(*final(self), *old(self)),
            gives_image(
                emit_from(old(self).beam_file.code@, 0, old(self).image(), old(self).lookup()),
                r,
                *final(self),
            ),
            r is Ok ==> final(self).code_wf(),
            r is Ok ==> (size_from(
                old(self).beam_file.code@,
                0,
                old(self).lit_heap@.len(),
                old(self).lit_heap.limit(),
            ) matches Some(s) ==> final(self).code@.len() <= old(self).code@.len() + s),
    {
        let n_bytes: usize = self.beam_file.code.len();
        let sizing_copy: Vec<u8> = copy_range(self.beam_file.code.as_slice(), 0, n_bytes);
        let raw_code: Vec<u8> = copy_range(self.beam_file.code.as_slice(), 0, n_bytes);
        assert(raw_code@ =~= self.beam_file.code@);
        assert(sizing_copy@ =~= self.beam_file.code@);
        let ghost bytes = raw_code@;
        let ghost lk = self.lookup();
        let ghost whole = emit_from(bytes, 0, self.image(), lk);
        let ghost sized = size_from(bytes, 0, self.lit_heap@.len(), lk.limit);
        match self.code_size(sizing_copy) {
            Some(code_size) => {
                self.code.reserve(code_size);
            },
            None => {},
        }
        let mut r = BinaryReader::from_bytes(raw_code);
        let mut next_instr = LtInstruction::new();
        while !r.eof()
            invariant
                r.bytes() == bytes,
                bytes == old(self).beam_file.code@,
                same_tables(*self, *old(self)),
                self.code_wf(),
                lk == self.lookup(),
                lk == old(self).lookup(),
                emit_from(bytes, r.pos() as int, self.image(), lk) == whole,
                whole == emit_from(bytes, 0, old(self).image(), lk),
                sized == size_from(bytes, 0, old(self).lit_heap@.len(), lk.limit),
                sized is Some ==> size_from(bytes, r.pos() as int, self.lit_heap@.len(), lk.limit)
                    is Some,
                sized is Some ==> self.code@.len() + size_from(
                    bytes,
                    r.pos() as int,
                    self.lit_heap@.len(),
                    lk.limit,
                )->Some_0 <= old(self).code@.len() + sized->Some_0,
            decreases bytes.len() - r.pos(),
        {
            match self.parse_instruction(&mut r, &mut next_instr) {
                Ok(()) => {},
                Err(e) => {
                    return Err(e);
                },
            }
            proof {
                r.lemma_pos_bound();
            }
        }
        Ok(())
    }
}

/// The error for operand `argi` of `op`, which is of a kind that the opcode
/// does not take.
pub fn op_badarg(op: RawOpcode, argi: usize) -> (e: RtErr)
    ensures
        e == RtErr::BadArg(op.0, argi),
{
    RtErr::BadArg(op.0, argi)
}

} // verus!
