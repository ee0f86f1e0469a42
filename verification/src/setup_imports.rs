//! The import table and the lambda table of a module, with their atoms
//! resolved.
use vstd::prelude::*;
use crate::boxed::{empty_block, header_word, room_for, BOXTYPETAG_TUPLE};
use crate::fail::{Fault, ModuleFault, RtErr};
use crate::heap::{fresh_block, Heap};
use crate::loader::LoaderState;
use crate::module::FunEntry;
use crate::term::{word_of_kind, Term, TermKind};
use crate::tuple::{tuple_image, Tuple};

verus! {

/// The atom of a table entry: index `n` is entry `n - 1` of the module's
/// atoms.  Index 0 names no atom.
pub open spec fn entry_atom(atoms: Seq<Term>, index: u32) -> Option<Term> {
    if 1 <= index <= atoms.len() {
        Some(atoms[index - 1])
    } else {
        None
    }
}

/// The words of the tuple `{M, F, Arity}`.
pub open spec fn triple_image(m: Term, f: Term, arity: u32) -> Seq<u64> {
    seq![
        header_word(BOXTYPETAG_TUPLE, 5),
        3,
        m.value,
        f.value,
        word_of_kind(TermKind::Small(arity as int)),
    ]
}

/// What setting up imports gives: the imports and the words of the heap.
pub struct Imported {
    pub imports: Seq<Term>,
    pub heap: Seq<u64>,
}

/// The imports from record `i` of the table on, behind the imports `acc`:
/// each a pointer to a tuple `{M, F, Arity}` at the end of the heap.  Fails
/// with `BadAtomIndex` where a record names no atom, and with
/// `HeapOutOfMemory` where a tuple does not fit.
pub open spec fn imports_from(
    words: Seq<u32>,
    i: int,
    atoms: Seq<Term>,
    limit: nat,
    acc: Imported,
) -> Result<Imported, Fault>
    decreases words.len() / 3 - i,
{
    if i < 0 || i >= words.len() / 3 {
        Ok(acc)
    } else if entry_atom(atoms, words[3 * i]) is None || entry_atom(atoms, words[3 * i + 1])
        is None {
        Err(Fault::MalformedModule(ModuleFault::BadAtomIndex))
    } else if !room_for(acc.heap.len(), limit, 5) {
        Err(Fault::HeapOutOfMemory)
    } else {
        imports_from(
            words,
            i + 1,
            atoms,
            limit,
            Imported {
                imports: acc.imports.push(
                    Term { value: word_of_kind(TermKind::Boxed(acc.heap.len())) },
                ),
                heap: acc.heap + triple_image(
                    entry_atom(atoms, words[3 * i])->Some_0,
                    entry_atom(atoms, words[3 * i + 1])->Some_0,
                    words[3 * i + 2],
                ),
            },
        )
    }
}

/// Record `i` of the lambda table with its atom resolved.
pub open spec fn lambda_entry(atoms: Seq<Term>, words: Seq<u32>, i: int) -> Option<FunEntry> {
    match entry_atom(atoms, words[6 * i]) {
        None => None,
        Some(fun) => Some(
            FunEntry {
                fun,
                arity: words[6 * i + 1] as u64,
                label: words[6 * i + 2] as u64,
                index: words[6 * i + 3] as u64,
                n_free: words[6 * i + 4] as u64,
                old_uniq: words[6 * i + 5] as u64,
            },
        ),
    }
}

/// Whether every record of the lambda table names an atom.
pub open spec fn lambdas_resolve(atoms: Seq<Term>, words: Seq<u32>) -> bool {
    forall|i: int| 0 <= i < words.len() / 6 ==> (#[trigger] lambda_entry(atoms, words, i)) is Some
}

/// Whether the loader differs from what it was in the imports and the
/// literal heap only.
pub open spec fn imports_changed(after: LoaderState, before: LoaderState) -> bool {
    &&& after.beam_file == before.beam_file
    &&& after.name == before.name
    &&& after.vm_atoms == before.vm_atoms
    &&& after.lit_tab == before.lit_tab
    &&& after.lit_heap.limit() == before.lit_heap.limit()
    &&& after.code == before.code
    &&& after.labels == before.labels
    &&& after.replace_labels == before.replace_labels
    &&& after.funs == before.funs
    &&& after.lambdas == before.lambdas
}

impl LoaderState {
    /// The atom of a table entry.
    fn atom_of_entry(&self, index: u32) -> (r: Option<Term>)
        ensures
            r == entry_atom(self.vm_atoms@, index),
    {
        if index == 0 || index as u64 > self.vm_atoms.len() as u64 {
            return None;
        }
        Some(self.vm_atoms[(index - 1) as usize])
    }

    /// Writes each import as a tuple `{M, F, Arity}` on the literal heap and
    /// appends the pointers to the module's imports.
    pub fn setup_imports(&mut self) -> (r: Result<(), RtErr>)
        ensures
            imports_changed(*final(self), *old(self)),
            match imports_from(
                old(self).beam_file.imports@,
                0,
                old(self).vm_atoms@,
                old(self).lit_heap.limit(),
                Imported { imports: old(self).imports@, heap: old(self).lit_heap@ },
            ) {
                Ok(done) => {
                    &&& r is Ok
                    &&& final(self).imports@ == done.imports
                    &&& final(self).lit_heap@ == done.heap
                },
                Err(f) => r matches Err(e) && e@ == f,
            },
    {
        let ghost words = self.beam_file.imports@;
        let ghost atoms = self.vm_atoms@;
        let ghost limit = self.lit_heap.limit();
        let ghost whole = imports_from(
            words,
            0,
            atoms,
            limit,
            Imported { imports: self.imports@, heap: self.lit_heap@ },
        );
        let len: usize = self.beam_file.imports.len();
        let n: usize = len / 3;
        let mut i: usize = 0;
        while i < n
            invariant
                i <= n,
                n == words.len() / 3,
                3 * n <= len,
                len == words.len(),
                words == self.beam_file.imports@,
                atoms == self.vm_atoms@,
                limit == self.lit_heap.limit(),
                imports_changed(*self, *old(self)),
                imports_from(
                    words,
                    i as int,
                    atoms,
                    limit,
                    Imported { imports: self.imports@, heap: self.lit_heap@ },
                ) == whole,
                whole == imports_from(
                    old(self).beam_file.imports@,
                    0,
                    old(self).vm_atoms@,
                    old(self).lit_heap.limit(),
                    Imported { imports: old(self).imports@, heap: old(self).lit_heap@ },
                ),
            decreases n - i,
        {
            let m: Term = match self.atom_of_entry(self.beam_file.imports[3 * i]) {
                Some(t) => t,
                None => {
                    return Err(RtErr::MalformedModule(ModuleFault::BadAtomIndex));
                },
            };
            let f: Term = match self.atom_of_entry(self.beam_file.imports[3 * i + 1]) {
                Some(t) => t,
                None => {
                    return Err(RtErr::MalformedModule(ModuleFault::BadAtomIndex));
                },
            };
            let arity: u32 = self.beam_file.imports[3 * i + 2];
            let ghost before = self.lit_heap@;
            let p: usize = match Tuple::create_into(&mut self.lit_heap, 3) {
                Ok(p) => p,
                Err(e) => {
                    return Err(RtErr::HeapOutOfMemory);
                },
            };
            Tuple::set_element(&mut self.lit_heap, p, 0, m);
            Tuple::set_element(&mut self.lit_heap, p, 1, f);
            Tuple::set_element(&mut self.lit_heap, p, 2, Term::make_small_unsigned(arity as u64));
            proof {
                assert(self.lit_heap@ =~= before + triple_image(m, f, arity)) by {
                    assert(empty_block(BOXTYPETAG_TUPLE, 5).len() == 5);
                    assert(fresh_block(4, false).len() == 4);
                }
            }
            self.imports.push(Term::make_boxed(p as u64));
            i += 1;
        }
        Ok(())
    }

    /// Fills the module's lambdas from the lambda table of the file.  Fails,
    /// with `BadAtomIndex`, exactly where a record names no atom.
    pub fn stage2_fill_lambdas(&mut self) -> (r: Result<(), RtErr>)
        ensures
            final(self).beam_file == old(self).beam_file,
            final(self).name == old(self).name,
            final(self).vm_atoms == old(self).vm_atoms,
            final(self).lit_tab == old(self).lit_tab,
            final(self).lit_heap == old(self).lit_heap,
            final(self).code == old(self).code,
            final(self).labels == old(self).labels,
            final(self).replace_labels == old(self).replace_labels,
            final(self).funs == old(self).funs,
            final(self).imports == old(self).imports,
            lambdas_resolve(old(self).vm_atoms@, old(self).beam_file.lambdas@) ==> {
                &&& r is Ok
                &&& final(self).lambdas@.len() == old(self).beam_file.lambdas@.len() / 6
                &&& forall|i: int|
                    0 <= i < final(self).lambdas@.len() ==> Some(
                        #[trigger] final(self).lambdas@[i],
                    ) == lambda_entry(old(self).vm_atoms@, old(self).beam_file.lambdas@, i)
            },
            !lambdas_resolve(old(self).vm_atoms@, old(self).beam_file.lambdas@) ==> {
                &&& r matches Err(e)
                &&& e@ == Fault::MalformedModule(ModuleFault::BadAtomIndex)
            },
    {
        let ghost words = self.beam_file.lambdas@;
        let ghost atoms = self.vm_atoms@;
        let len: usize = self.beam_file.lambdas.len();
        let n: usize = len / 6;
        let mut out: Vec<FunEntry> = Vec::new();
        let mut i: usize = 0;
        while i < n
            invariant
                i <= n,
                n == words.len() / 6,
                6 * n <= len,
                len == words.len(),
                *self == *old(self),
                words == self.beam_file.lambdas@,
                atoms == self.vm_atoms@,
                out@.len() == i,
                forall|k: int| 0 <= k < i ==> Some(#[trigger] out@[k]) == lambda_entry(atoms, words, k),
            decreases n - i,
        {
            let fun: Term = match self.atom_of_entry(self.beam_file.lambdas[6 * i]) {
                Some(t) => t,
                None => {
                    assert(lambda_entry(atoms, words, i as int) is None);
                    return Err(RtErr::MalformedModule(ModuleFault::BadAtomIndex));
                },
            };
            out.push(
                FunEntry {
                    fun,
                    arity: self.beam_file.lambdas[6 * i + 1] as u64,
                    label: self.beam_file.lambdas[6 * i + 2] as u64,
                    index: self.beam_file.lambdas[6 * i + 3] as u64,
                    n_free: self.beam_file.lambdas[6 * i + 4] as u64,
                    old_uniq: self.beam_file.lambdas[6 * i + 5] as u64,
                },
            );
            i += 1;
        }
        proof {
            assert forall|k: int| 0 <= k < words.len() / 6 implies (#[trigger] lambda_entry(
                atoms,
                words,
                k,
            )) is Some by {
                assert(Some(out@[k]) == lambda_entry(atoms, words, k));
            }
        }
        self.lambdas = out;
        Ok(())
    }
}

} // verus!
