//! A load from beginning to end: from the bytes of a module file to the
//! module image.
use vstd::prelude::*;
use crate::atom::{grows_from, AtomTable};
use crate::beam_file::{file_tables, strings_of, BeamFile, Tables};
use crate::code_srv::{last_version, version_after, CodeServer};
use crate::compact_term::extends;
use crate::etf::{decode, etf_literal, EtfRead};
use crate::fail::{ExceptionClass, ExceptionReason, Fault, ModuleFault, RtErr};
use crate::fix_labels::patch_all;
use crate::loader::{
    atom_indices, atom_terms, lemma_grows_self, lemma_grows_trans, lemma_table_after, table_after,
    LoaderState, PatchLocation, LITERAL_HEAP_WORDS,
};
use crate::module::{FunEntry, Module, VersionedModuleName};
use crate::parse_code::{clean_code, emit_from, Image, Lookup};
use crate::setup_imports::{imports_from, lambda_entry, lambdas_resolve, Imported};
use crate::term::{Term, TermKind, SPECIAL_LIMIT};

verus! {

/// What loading literals gives: the literals as terms, the words of the
/// heap, and the atom table.
pub struct Literals {
    pub terms: Seq<Term>,
    pub heap: Seq<u64>,
    pub table: Seq<Seq<u8>>,
}

/// The literals from `i` on, read behind the literals in `acc`.
pub open spec fn literals_from(frames: Seq<Seq<u8>>, i: int, limit: nat, acc: Literals) -> Result<
    Literals,
    Fault,
>
    decreases frames.len() - i,
{
    if i < 0 || i >= frames.len() {
        Ok(acc)
    } else {
        match etf_literal(frames[i], acc.heap.len(), limit, acc.table) {
            EtfRead::Fail(f) => Err(f),
            EtfRead::Done { word, next, added, table } => literals_from(
                frames,
                i + 1,
                limit,
                Literals {
                    terms: acc.terms.push(Term { value: word }),
                    heap: acc.heap + added,
                    table,
                },
            ),
        }
    }
}

/// What a load gives: the module, and the atom table and the versions of the
/// code server after it.
pub struct Loaded {
    pub name: VersionedModuleName,
    pub code: Seq<u64>,
    pub funs: Map<u64, usize>,
    pub heap: Seq<u64>,
    pub lambdas: Seq<FunEntry>,
    pub imports: Seq<Term>,
    pub atoms: Seq<Seq<u8>>,
    pub versions: Map<u64, usize>,
}

/// The lambdas of a module.
pub open spec fn lambdas_of(atoms: Seq<Term>, words: Seq<u32>) -> Seq<FunEntry> {
    Seq::new((words.len() / 6) as nat, |i: int| lambda_entry(atoms, words, i)->Some_0)
}

/// The code of a module with its labels resolved, from the tables of its
/// file, its atoms and its literals.
pub open spec fn linked(tables: Tables, atoms: Seq<Term>, lits: Literals) -> Result<Image, Fault> {
    match emit_from(
        tables.code,
        0,
        Image {
            code: Seq::<u64>::empty(),
            labels: Map::<u64, usize>::empty(),
            patches: Seq::<PatchLocation>::empty(),
            funs: Map::<u64, usize>::empty(),
            heap: lits.heap,
        },
        Lookup { atoms, literals: lits.terms, limit: LITERAL_HEAP_WORDS as nat },
    ) {
        Err(f) => Err(f),
        Ok(img) => patch_all(img, img.patches, 0),
    }
}

/// The module that the tables of a file give, on a code server that knows
/// the atoms `known` and has handed out the versions `versions`.
///
/// The atoms of the file are registered, and the module is named after the
/// first of them.  Then the literals are read, the lambdas resolved, the
/// code decoded and its labels fixed, and the imports set up.  The first of
/// these steps that fails gives the fault.
pub open spec fn module_of(tables: Tables, known: Seq<Seq<u8>>, versions: Map<u64, usize>) -> Result<
    Loaded,
    Fault,
> {
    let atoms = atom_terms(atom_indices(known, tables.atoms));
    if tables.atoms.len() == 0 {
        Err(Fault::MalformedModule(ModuleFault::MissingChunk))
    } else if table_after(known, tables.atoms).len() > SPECIAL_LIMIT {
        Err(Fault::Exception(ExceptionClass::Error, ExceptionReason::SystemLimit))
    } else {
        match literals_from(
            tables.literals,
            0,
            LITERAL_HEAP_WORDS as nat,
            Literals {
                terms: Seq::<Term>::empty(),
                heap: Seq::<u64>::empty(),
                table: table_after(known, tables.atoms),
            },
        ) {
            Err(f) => Err(f),
            Ok(lits) => if !lambdas_resolve(atoms, tables.lambdas) {
                Err(Fault::MalformedModule(ModuleFault::BadAtomIndex))
            } else {
                match linked(tables, atoms, lits) {
                    Err(f) => Err(f),
                    Ok(img) => match imports_from(
                        tables.imports,
                        0,
                        atoms,
                        LITERAL_HEAP_WORDS as nat,
                        Imported { imports: Seq::<Term>::empty(), heap: img.heap },
                    ) {
                        Err(f) => Err(f),
                        Ok(done) => Ok(
                            Loaded {
                                name: VersionedModuleName {
                                    module: atoms[0],
                                    version: version_after(
                                        last_version(versions, atoms[0]@->Atom_0 as u64),
                                    ) as u64,
                                },
                                code: img.code,
                                funs: img.funs,
                                heap: done.heap,
                                lambdas: lambdas_of(atoms, tables.lambdas),
                                imports: done.imports,
                                atoms: lits.table,
                                versions: versions.insert(
                                    atoms[0]@->Atom_0 as u64,
                                    version_after(last_version(versions, atoms[0]@->Atom_0 as u64)),
                                ),
                            },
                        ),
                    },
                }
            },
        }
    }
}

impl LoaderState {
    /// Reads the literals of the file onto the literal heap.  The atoms in
    /// them are registered with the code server.
    pub fn stage2_load_literals(&mut self, code_server: &mut CodeServer) -> (r: Result<(), RtErr>)
        requires
            old(code_server).wf(),
            old(self).tables_wf(),
        ensures
            final(code_server).wf(),
            grows_from(final(code_server).atoms@, old(code_server).atoms@),
            final(code_server).versions == old(code_server).versions,
            final(self).beam_file == old(self).beam_file,
            final(self).name == old(self).name,
            final(self).vm_atoms == old(self).vm_atoms,
            final(self).lit_heap.limit() == old(self).lit_heap.limit(),
            final(self).code == old(self).code,
            final(self).labels == old(self).labels,
            final(self).replace_labels == old(self).replace_labels,
            final(self).funs == old(self).funs,
            final(self).imports == old(self).imports,
            final(self).lambdas == old(self).lambdas,
            match literals_from(
                strings_of(old(self).beam_file.literals@),
                0,
                old(self).lit_heap.limit(),
                Literals {
                    terms: old(self).lit_tab@,
                    heap: old(self).lit_heap@,
                    table: old(code_server).atoms@,
                },
            ) {
                Ok(done) => {
                    &&& r is Ok
                    &&& final(self).lit_tab@ == done.terms
                    &&& final(self).lit_heap@ == done.heap
                    &&& final(code_server).atoms@ == done.table
                    &&& final(self).tables_wf()
                },
                Err(f) => r matches Err(e) && e@ == f,
            },
    {
        let ghost frames = strings_of(self.beam_file.literals@);
        let ghost limit = self.lit_heap.limit();
        let ghost whole = literals_from(
            frames,
            0,
            limit,
            Literals { terms: self.lit_tab@, heap: self.lit_heap@, table: code_server.atoms@ },
        );
        let n: usize = self.beam_file.literals.len();
        let mut i: usize = 0;
        proof {
            lemma_grows_self(code_server.atoms@);
        }
        while i < n
            invariant
                i <= n,
                n == frames.len(),
                frames == strings_of(self.beam_file.literals@),
                limit == self.lit_heap.limit(),
                code_server.wf(),
                grows_from(code_server.atoms@, old(code_server).atoms@),
                code_server.versions == old(code_server).versions,
                self.tables_wf(),
                self.beam_file == old(self).beam_file,
                self.name == old(self).name,
                self.vm_atoms == old(self).vm_atoms,
                self.lit_heap.limit() == old(self).lit_heap.limit(),
                self.code == old(self).code,
                self.labels == old(self).labels,
                self.replace_labels == old(self).replace_labels,
                self.funs == old(self).funs,
                self.imports == old(self).imports,
                self.lambdas == old(self).lambdas,
                literals_from(
                    frames,
                    i as int,
                    limit,
                    Literals {
                        terms: self.lit_tab@,
                        heap: self.lit_heap@,
                        table: code_server.atoms@,
                    },
                ) == whole,
                whole == literals_from(
                    strings_of(old(self).beam_file.literals@),
                    0,
                    old(self).lit_heap.limit(),
                    Literals {
                        terms: old(self).lit_tab@,
                        heap: old(self).lit_heap@,
                        table: old(code_server).atoms@,
                    },
                ),
            decreases n - i,
        {
            let ghost table_before = code_server.atoms@;
            match decode(
                self.beam_file.literals[i].as_slice(),
                &mut self.lit_heap,
                &mut code_server.atoms,
            ) {
                Ok(t) => {
                    self.lit_tab.push(t);
                },
                Err(e) => {
                    proof {
                        lemma_grows_trans(old(code_server).atoms@, table_before, code_server.atoms@);
                    }
                    return Err(e);
                },
            }
            proof {
                lemma_grows_trans(old(code_server).atoms@, table_before, code_server.atoms@);
            }
            i += 1;
        }
        Ok(())
    }
}

/// Whether the module is the one that the load gives.
pub open spec fn is_loaded(module: Module, loaded: Loaded) -> bool {
    &&& module.name == loaded.name
    &&& module.code@ == loaded.code
    &&& module.funs@ == loaded.funs
    &&& module.lit_heap@ == loaded.heap
    &&& module.lambdas@ == loaded.lambdas
    &&& module.imports@ == loaded.imports
}

/// Loads a module from the bytes of its file.
///
/// On success the module is the one that `module_of` describes; no place is
/// left to patch in it, and every code pointer in its code points to a word
/// of its code.  The atoms of the file are then in the atom table of the
/// code server, and the module has a fresh version.  On failure the fault is
/// that of the first step that fails, and no module is handed out.
pub fn load_module(code_srv: &mut CodeServer, bytes: Vec<u8>) -> (r: Result<Box<Module>, RtErr>)
    requires
        old(code_srv).wf(),
    ensures
        final(code_srv).wf(),
        grows_from(final(code_srv).atoms@, old(code_srv).atoms@),
        match file_tables(bytes@) {
            Err(fault) => {
                &&& r matches Err(e)
                &&& e@ == Fault::MalformedModule(fault)
            },
            Ok(tables) => match module_of(tables, old(code_srv).atoms@, old(code_srv).versions@) {
                Err(f) => {
                    &&& r matches Err(e)
                    &&& e@ == f
                },
                Ok(loaded) => {
                    &&& r matches Ok(module)
                    &&& is_loaded(*module, loaded)
                    &&& final(code_srv).atoms@ == loaded.atoms
                    &&& final(code_srv).versions@ == loaded.versions
                    &&& clean_code(module.code@)
                },
            },
        },
{
    proof {
        lemma_grows_self(code_srv.atoms@);
    }
    let ghost known = code_srv.atoms@;
    let beam_file = match BeamFile::parse(bytes) {
        Ok(f) => f,
        Err(e) => {
            return Err(e);
        },
    };
    let ghost tables = beam_file.tables();
    let mut loader = LoaderState::new(beam_file);
    match loader.stage2_register_atoms(code_srv) {
        Ok(()) => {},
        Err(e) => {
            return Err(e);
        },
    }
    let ghost registered = code_srv.atoms@;
    assert(loader.lit_tab@ =~= Seq::<Term>::empty());
    assert(loader.lit_heap@ =~= Seq::<u64>::empty());
    match loader.stage2_load_literals(code_srv) {
        Ok(()) => {},
        Err(e) => {
            proof {
                lemma_grows_trans(known, registered, code_srv.atoms@);
            }
            return Err(e);
        },
    }
    proof {
        lemma_grows_trans(known, registered, code_srv.atoms@);
    }
    match loader.stage2_fill_lambdas() {
        Ok(()) => {},
        Err(e) => {
            return Err(e);
        },
    }
    assert(loader.lambdas@ =~= lambdas_of(loader.vm_atoms@, tables.lambdas));
    assert(loader.code@ =~= Seq::<u64>::empty());
    assert(loader.replace_labels@ =~= Seq::<PatchLocation>::empty());
    match loader.parse_raw_code() {
        Ok(()) => {},
        Err(e) => {
            return Err(e);
        },
    }
    match loader.fix_labels() {
        Ok(()) => {},
        Err(e) => {
            return Err(e);
        },
    }
    assert(loader.imports@ =~= Seq::<Term>::empty());
    match loader.setup_imports() {
        Ok(()) => {},
        Err(e) => {
            return Err(e);
        },
    }
    loader.load_finalize()
}

} // verus!
