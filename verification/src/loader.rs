//! The loader's state, and the steps of a load other than the code itself.
//!
//! A load takes a module file that was read into its tables, registers its
//! atoms with the code server, decodes the code into words, resolves the
//! labels, and hands out the module image.
use vstd::prelude::*;
use std::collections::BTreeMap;
use crate::atom::{
    distinct, grows_from, interned_index, interned_table, lemma_intern_again, lemma_interned,
};
use crate::beam_file::{strings_of, BeamFile};
use crate::code_srv::{last_version, version_after, CodeServer};
use crate::fail::{ExceptionClass, ExceptionReason, Fault, ModuleFault, RtErr};
use crate::gen_op::RawOpcode;
use crate::heap::Heap;
use crate::module::{lookup, FunEntry, Module, VersionedModuleName};
use crate::term::{
    word_of_kind, Term, TermKind, SMALL_MAX, SPECIAL_LIMIT, SPECIAL_LT_ATOM, SPECIAL_NIL,
};

verus! {

/// The most words that a code image holds.
pub const CODE_LIMIT: usize = 0x4000_0000;

/// The words that the literal heap of a module may hold.
pub const LITERAL_HEAP_WORDS: usize = 0x10_0000;

/// Where a label that was not yet known has to be written once it is.
#[derive(Clone, Copy, Debug, PartialEq, Eq, Structural)]
pub enum PatchLocation {
    /// A word of the code, by its offset.
    PatchCodeOffset(usize),
    /// An element of a jump table, by the pointer to the table and the
    /// element's index.
    PatchJumpTable(Term, usize),
}

/// The loader's state.
#[derive(Debug)]
pub struct LoaderState {
    pub beam_file: BeamFile,
    pub name: Option<VersionedModuleName>,
    /// The atoms of the module as terms; entry `i` is atom `i + 1` of the
    /// file.
    pub vm_atoms: Vec<Term>,
    /// The literals of the module as terms.
    pub lit_tab: Vec<Term>,
    /// Where the literals, the bignums and the jump tables of the code lie.
    pub lit_heap: Heap,
    /// The code: opcodes and their operands, one word each.
    pub code: Vec<u64>,
    /// The code offset of every label that was seen.
    pub labels: BTreeMap<u64, usize>,
    /// Where labels that were not yet known have to be written.
    pub replace_labels: Vec<PatchLocation>,
    /// The code offset of every function, by `fun_key`.
    pub funs: BTreeMap<u64, usize>,
    /// The imports, each a tuple `{M, F, Arity}` on the literal heap.
    pub imports: Vec<Term>,
    pub lambdas: Vec<FunEntry>,
}

/// The nil term.
pub open spec fn nil_term() -> Term {
    Term { value: SPECIAL_NIL }
}

/// The term that a load-time atom index stands for: index 0 is nil, and
/// index `n` is entry `n - 1` of the module's atoms.
pub open spec fn atom_at(atoms: Seq<Term>, n: nat) -> Option<Term> {
    if n == 0 {
        Some(nil_term())
    } else if n - 1 < atoms.len() {
        Some(atoms[n - 1])
    } else {
        None
    }
}

/// A term with its load-time atom index resolved; any other term is
/// unchanged.  Fails where the module has no atom of that index.
pub open spec fn resolved(atoms: Seq<Term>, t: Term) -> Result<Term, Fault> {
    if t@ is Loadtime && t@->tag == SPECIAL_LT_ATOM {
        match atom_at(atoms, t@->val) {
            Some(a) => Ok(a),
            None => Err(Fault::MalformedModule(ModuleFault::BadAtomIndex)),
        }
    } else {
        Ok(t)
    }
}

/// The table after the names were interned, the first name first.
pub open spec fn table_after(table: Seq<Seq<u8>>, names: Seq<Seq<u8>>) -> Seq<Seq<u8>>
    decreases names.len(),
{
    if names.len() == 0 {
        table
    } else {
        table_after(interned_table(table, names[0]), names.drop_first())
    }
}

/// The atom indices that interning the names gives, the first name first.
pub open spec fn atom_indices(table: Seq<Seq<u8>>, names: Seq<Seq<u8>>) -> Seq<int>
    decreases names.len(),
{
    if names.len() == 0 {
        Seq::<int>::empty()
    } else {
        seq![interned_index(table, names[0])] + atom_indices(
            interned_table(table, names[0]),
            names.drop_first(),
        )
    }
}

/// The atoms of these indices.
pub open spec fn atom_terms(indices: Seq<int>) -> Seq<Term> {
    Seq::new(
        indices.len(),
        |i: int| Term { value: word_of_kind(TermKind::Atom(indices[i] as nat)) },
    )
}

/// Registering names only appends to the table and keeps it free of
/// repetitions.
pub proof fn lemma_table_after(table: Seq<Seq<u8>>, names: Seq<Seq<u8>>)
    requires
        distinct(table),
    ensures
        distinct(table_after(table, names)),
        grows_from(table_after(table, names), table),
        atom_indices(table, names).len() == names.len(),
        forall|i: int|
            0 <= i < names.len() ==> 0 <= #[trigger] atom_indices(table, names)[i] < table_after(
                table,
                names,
            ).len(),
    decreases names.len(),
{
    if names.len() > 0 {
        lemma_interned(table, names[0]);
        let next = interned_table(table, names[0]);
        let rest = names.drop_first();
        lemma_table_after(next, rest);
        assert forall|i: int| 0 <= i < names.len() implies 0 <= #[trigger] atom_indices(
            table,
            names,
        )[i] < table_after(table, names).len() by {
            if i > 0 {
                assert(atom_indices(table, names)[i] == atom_indices(next, rest)[i - 1]);
            }
        }
    }
}

/// Atom identity: the atoms of a module are the same at every load.  Once
/// the names of a module were registered, registering them again gives the
/// same atoms and leaves the table as it is, whatever was registered in
/// between.
pub proof fn lemma_register_again(table: Seq<Seq<u8>>, names: Seq<Seq<u8>>, later: Seq<Seq<u8>>)
    requires
        distinct(table),
        distinct(later),
        grows_from(later, table_after(table, names)),
    ensures
        atom_indices(later, names) == atom_indices(table, names),
        table_after(later, names) == later,
    decreases names.len(),
{
    if names.len() > 0 {
        let next = interned_table(table, names[0]);
        let rest = names.drop_first();
        lemma_interned(table, names[0]);
        lemma_table_after(next, rest);
        lemma_intern_again(table, names[0], later);
        lemma_register_again(next, rest, later);
    } else {
        assert(atom_indices(later, names) =~= atom_indices(table, names));
    }
}

impl LoaderState {
    /// The atoms of the module are atoms, and no literal is a code pointer
    /// or a load-time term.
    pub open spec fn tables_wf(&self) -> bool {
        &&& forall|i: int| 0 <= i < self.vm_atoms@.len() ==> (#[trigger] self.vm_atoms@[i])@ is Atom
        &&& forall|i: int|
            0 <= i < self.lit_tab@.len() ==> operand_kind((#[trigger] self.lit_tab@[i])@)
    }

    /// A loader for the module file, with nothing loaded yet.
    pub fn new(beam_file: BeamFile) -> (state: LoaderState)
        ensures
            state.beam_file == beam_file,
            state.name is None,
            state.vm_atoms@.len() == 0,
            state.lit_tab@.len() == 0,
            state.lit_heap@.len() == 0,
            state.lit_heap.limit() == LITERAL_HEAP_WORDS,
            state.code@.len() == 0,
            state.labels@ == Map::<u64, usize>::empty(),
            state.replace_labels@.len() == 0,
            state.funs@ == Map::<u64, usize>::empty(),
            state.imports@.len() == 0,
            state.lambdas@.len() == 0,
            state.tables_wf(),
    {
        LoaderState {
            beam_file,
            name: None,
            vm_atoms: Vec::new(),
            lit_tab: Vec::new(),
            lit_heap: Heap::new(LITERAL_HEAP_WORDS),
            code: Vec::new(),
            labels: BTreeMap::new(),
            replace_labels: Vec::new(),
            funs: BTreeMap::new(),
            imports: Vec::new(),
            lambdas: Vec::new(),
        }
    }

    /// The term of an atom index of the file: nil for index 0, else the
    /// module's atom of that index, if it has one.
    pub fn atom_from_loadtime_index(&self, n: u64) -> (r: Option<Term>)
        ensures
            r == atom_at(self.vm_atoms@, n as nat),
    {
        if n == 0 {
            return Some(Term::nil());
        }
        if n - 1 >= self.vm_atoms.len() as u64 {
            return None;
        }
        Some(self.vm_atoms[(n - 1) as usize])
    }

    /// The name of the module.
    pub fn module_name(&self) -> (t: Term)
        requires
            self.name is Some,
        ensures
            t == self.name->Some_0.module,
    {
        match &self.name {
            Some(mod_id) => mod_id.module,
            None => Term::nil(),
        }
    }

    /// Hands out the module.  The code, the function table, the literal heap
    /// and the lambdas move into the module and leave the loader empty.
    pub fn load_finalize(&mut self) -> (r: Result<Box<Module>, RtErr>)
        requires
            old(self).name is Some,
        ensures
            r matches Ok(module),
            r->Ok_0.name == old(self).name->Some_0,
            r->Ok_0.code@ == old(self).code@,
            r->Ok_0.funs@ == old(self).funs@,
            r->Ok_0.lit_heap == old(self).lit_heap,
            r->Ok_0.lambdas@ == old(self).lambdas@,
            r->Ok_0.imports@ == old(self).imports@,
            final(self).code@.len() == 0,
            final(self).funs@ == Map::<u64, usize>::empty(),
            final(self).lit_heap@.len() == 0,
            final(self).lambdas@.len() == 0,
            final(self).imports@.len() == 0,
            final(self).name == old(self).name,
    {
        let mut newmod = match &self.name {
            Some(mod_id) => Module::new(mod_id),
            None => Module::new(&VersionedModuleName { module: Term::nil(), version: 0 }),
        };
        core::mem::swap(&mut self.funs, &mut newmod.funs);
        core::mem::swap(&mut self.code, &mut newmod.code);
        core::mem::swap(&mut self.lit_heap, &mut newmod.lit_heap);
        core::mem::swap(&mut self.lambdas, &mut newmod.lambdas);
        core::mem::swap(&mut self.imports, &mut newmod.imports);
        Ok(Box::new(newmod))
    }

    /// Names the module after the first atom of the file, with a fresh
    /// version from the code server.
    pub fn set_mod_id(&mut self, code_server: &mut CodeServer)
        requires
            old(self).vm_atoms@.len() > 0,
            old(self).vm_atoms@[0]@ is Atom,
        ensures
            final(self).name == Some(
                VersionedModuleName {
                    module: old(self).vm_atoms@[0],
                    version: version_after(
                        last_version(
                            old(code_server).versions@,
                            old(self).vm_atoms@[0]@->Atom_0 as u64,
                        ),
                    ) as u64,
                },
            ),
            final(code_server).versions@ == old(code_server).versions@.insert(
                old(self).vm_atoms@[0]@->Atom_0 as u64,
                final(self).name->Some_0.version as usize,
            ),
            final(code_server).atoms == old(code_server).atoms,
            final(self).beam_file == old(self).beam_file,
            final(self).vm_atoms == old(self).vm_atoms,
            final(self).lit_tab == old(self).lit_tab,
            final(self).lit_heap == old(self).lit_heap,
            final(self).code == old(self).code,
            final(self).labels == old(self).labels,
            final(self).replace_labels == old(self).replace_labels,
            final(self).funs == old(self).funs,
            final(self).imports == old(self).imports,
            final(self).lambdas == old(self).lambdas,
    {
        let mod_name = self.vm_atoms[0];
        let version: usize = code_server.next_module_version(mod_name);
        self.name = Some(VersionedModuleName { module: mod_name, version: version as u64 });
    }

    /// The code pointer to the word at `dst_offset`.
    pub fn create_jump_destination(&self, dst_offset: usize) -> (w: u64)
        requires
            dst_offset <= CODE_LIMIT,
        ensures
            w == word_of_kind(TermKind::Cp(dst_offset as nat)),
            kind_is(w, TermKind::Cp(dst_offset as nat)),
    {
        Term::make_cp(dst_offset as u64).raw()
    }

    /// Resolves a load-time atom index into the atom that it stands for.
    /// Any other term, a jump table too, is returned as it is.  Fails
    /// exactly where the module has no atom of that index.
    pub fn resolve_value(&self, arg: Term) -> (r: Result<Term, RtErr>)
        ensures
            match resolved(self.vm_atoms@, arg) {
                Ok(t) => r == Ok::<Term, RtErr>(t),
                Err(fault) => r matches Err(e) && e@ == fault,
            },
    {
        if arg.is_loadtime() {
            let lt_tag: u64 = arg.get_loadtime_tag();
            let lt_val: u64 = arg.get_loadtime_val();
            if lt_tag == SPECIAL_LT_ATOM {
                return match self.atom_from_loadtime_index(lt_val) {
                    Some(t) => Ok(t),
                    None => Err(RtErr::MalformedModule(ModuleFault::BadAtomIndex)),
                };
            }
        }
        Ok(arg)
    }

    /// The word for a label: a code pointer where the label is known, else
    /// the label's number as a small integer, with `patch_loc` remembered
    /// for the fixup.
    pub fn maybe_convert_label(&mut self, l: u64, patch_loc: PatchLocation) -> (w: u64)
        requires
            l <= SMALL_MAX,
            forall|k: u64| #[trigger]
                old(self).labels@.contains_key(k) ==> old(self).labels@[k] <= CODE_LIMIT,
        ensures
            w == label_word(old(self).labels@, l),
            final(self).replace_labels@ == label_patches(
                old(self).labels@,
                l,
                patch_loc,
                old(self).replace_labels@,
            ),
            final(self).beam_file == old(self).beam_file,
            final(self).name == old(self).name,
            final(self).vm_atoms == old(self).vm_atoms,
            final(self).lit_tab == old(self).lit_tab,
            final(self).lit_heap == old(self).lit_heap,
            final(self).code == old(self).code,
            final(self).labels == old(self).labels,
            final(self).funs == old(self).funs,
            final(self).imports == old(self).imports,
            final(self).lambdas == old(self).lambdas,
    {
        match lookup(&self.labels, l) {
            Some(offset) => self.create_jump_destination(offset),
            None => {
                self.replace_labels.push(patch_loc);
                Term::make_small_unsigned(l).raw()
            },
        }
    }

    /// Registers the atoms of the file with the code server and names the
    /// module after the first of them.  Fails, with `system_limit`, where
    /// the atom table is full, and with `MissingChunk` where the file has no
    /// atom.
    pub fn stage2_register_atoms(&mut self, code_server: &mut CodeServer) -> (r: Result<(), RtErr>)
        requires
            old(code_server).wf(),
            old(self).tables_wf(),
        ensures
            final(code_server).wf(),
            grows_from(final(code_server).atoms@, old(code_server).atoms@),
            final(self).beam_file == old(self).beam_file,
            final(self).lit_tab == old(self).lit_tab,
            final(self).lit_heap == old(self).lit_heap,
            final(self).code == old(self).code,
            final(self).labels == old(self).labels,
            final(self).replace_labels == old(self).replace_labels,
            final(self).funs == old(self).funs,
            final(self).imports == old(self).imports,
            final(self).lambdas == old(self).lambdas,
            r is Ok ==> {
                &&& final(self).tables_wf()
                &&& final(code_server).atoms@ == table_after(
                    old(code_server).atoms@,
                    strings_of(old(self).beam_file.atoms@),
                )
                &&& final(self).vm_atoms@.len() == old(self).beam_file.atoms@.len()
                &&& final(self).vm_atoms@ == atom_terms(
                    atom_indices(old(code_server).atoms@, strings_of(old(self).beam_file.atoms@)),
                )
                &&& final(self).name is Some
                &&& final(self).name->Some_0.module == final(self).vm_atoms@[0]
            },
            r is Ok <==> old(self).beam_file.atoms@.len() > 0 && table_after(
                old(code_server).atoms@,
                strings_of(old(self).beam_file.atoms@),
            ).len() <= SPECIAL_LIMIT,
            r matches Err(e) ==> e@ == (if old(self).beam_file.atoms@.len() == 0 {
                Fault::MalformedModule(ModuleFault::MissingChunk)
            } else {
                Fault::Exception(ExceptionClass::Error, ExceptionReason::SystemLimit)
            }),
            r is Ok ==> final(code_server).versions@ == old(code_server).versions@.insert(
                final(self).vm_atoms@[0]@->Atom_0 as u64,
                final(self).name->Some_0.version as usize,
            ) && final(self).name->Some_0.version == version_after(
                last_version(
                    old(code_server).versions@,
                    final(self).vm_atoms@[0]@->Atom_0 as u64,
                ),
            ),
            r is Err ==> final(code_server).versions@ == old(code_server).versions@,
    {
        let ghost names = strings_of(self.beam_file.atoms@);
        let ghost start = code_server.atoms@;
        let n: usize = self.beam_file.atoms.len();
        if n == 0 {
            proof {
                lemma_grows_self(start);
            }
            return Err(RtErr::MalformedModule(ModuleFault::MissingChunk));
        }
        let mut atoms: Vec<Term> = Vec::new();
        let mut i: usize = 0;
        proof {
            lemma_grows_self(start);
            assert(names.subrange(0, names.len() as int) =~= names);
        }
        while i < n
            invariant
                i <= n,
                n == self.beam_file.atoms@.len(),
                names == strings_of(self.beam_file.atoms@),
                *self == *old(self),
                start == old(code_server).atoms@,
                code_server.wf(),
                code_server.versions == old(code_server).versions,
                grows_from(code_server.atoms@, start),
                atoms@.len() == i,
                table_after(code_server.atoms@, names.subrange(i as int, n as int)) == table_after(
                    start,
                    names,
                ),
                forall|k: int|
                    0 <= k < i ==> (#[trigger] atoms@[k])@ == TermKind::Atom(
                        atom_indices(start, names)[k] as nat,
                    ) && atoms@[k].value == word_of_kind(atoms@[k]@),
                forall|k: int|
                    i <= k < n ==> atom_indices(
                        code_server.atoms@,
                        names.subrange(i as int, n as int),
                    )[k - i] == atom_indices(start, names)[k],
            decreases n - i,
        {
            let ghost table = code_server.atoms@;
            let ghost tail = names.subrange(i as int, n as int);
            proof {
                assert(tail[0] == names[i as int]);
                assert(tail.drop_first() =~= names.subrange(i + 1, n as int));
                lemma_interned(table, tail[0]);
                lemma_table_after(interned_table(table, tail[0]), tail.drop_first());
                lemma_table_after(table, tail);
            }
            match code_server.atoms.intern(self.beam_file.atoms[i].as_slice()) {
                Ok(t) => {
                    atoms.push(t);
                },
                Err(e) => {
                    proof {
                        lemma_grows_trans(start, table, table);
                    }
                    return Err(e);
                },
            }
            proof {
                lemma_grows_trans(start, table, code_server.atoms@);
                assert forall|k: int| i + 1 <= k < n implies atom_indices(
                    code_server.atoms@,
                    names.subrange(i + 1, n as int),
                )[k - (i + 1)] == atom_indices(start, names)[k] by {
                    assert(atom_indices(table, tail)[k - i] == atom_indices(
                        code_server.atoms@,
                        tail.drop_first(),
                    )[k - i - 1]);
                }
            }
            i += 1;
        }
        proof {
            lemma_table_after(start, names);
            assert(atoms@ =~= atom_terms(atom_indices(start, names)));
        }
        self.vm_atoms = atoms;
        self.set_mod_id(code_server);
        Ok(())
    }
}

/// Whether a term of this kind can stand as an operand in a code image: it
/// is a value or a register, not a code pointer, an opcode, a header or a
/// load-time term.
pub open spec fn operand_kind(k: TermKind) -> bool {
    k is Small || k is Atom || k is Nil || k is Boxed || k is Cons || k is RegX || k is RegY
        || k is RegFp || k is Pid || k is Port
}

/// Whether `w` is the word of this kind.
pub open spec fn kind_is(w: u64, k: TermKind) -> bool {
    (Term { value: w })@ == k
}

/// The word for label `l`: a code pointer where the label is known, else
/// the label's number as a small integer.
pub open spec fn label_word(labels: Map<u64, usize>, l: u64) -> u64 {
    if labels.contains_key(l) {
        word_of_kind(TermKind::Cp(labels[l] as nat))
    } else {
        word_of_kind(TermKind::Small(l as int))
    }
}

/// The patch list after label `l` was converted: a label that is not known
/// leaves its location behind.
pub open spec fn label_patches(
    labels: Map<u64, usize>,
    l: u64,
    loc: PatchLocation,
    patches: Seq<PatchLocation>,
) -> Seq<PatchLocation> {
    if labels.contains_key(l) {
        patches
    } else {
        patches.push(loc)
    }
}

/// A table grows from itself.
pub proof fn lemma_grows_self(table: Seq<Seq<u8>>)
    ensures
        grows_from(table, table),
{
}

/// What grows from what grew from a table grows from that table.
pub proof fn lemma_grows_trans(a: Seq<Seq<u8>>, b: Seq<Seq<u8>>, c: Seq<Seq<u8>>)
    requires
        grows_from(b, a),
        grows_from(c, b),
    ensures
        grows_from(c, a),
{
}

} // verus!
