//! The code server: the atom table, and the version of every module name.
use vstd::prelude::*;
use std::collections::BTreeMap;
use crate::atom::AtomTable;
use crate::gen_atoms::{known_atoms, register_known_atoms};
use crate::module::{lookup, store};
use crate::term::Term;

verus! {

#[derive(Debug)]
pub struct CodeServer {
    pub atoms: AtomTable,
    /// The last version handed out for each module name, by atom index.
    pub versions: BTreeMap<u64, usize>,
}

/// The version that follows `last`.  Versions count up to the largest
/// number and stay there.
pub open spec fn version_after(last: usize) -> usize {
    if last < usize::MAX {
        (last + 1) as usize
    } else {
        last
    }
}

/// The last version handed out under this key; zero where none was.
pub open spec fn last_version(versions: Map<u64, usize>, key: u64) -> usize {
    if versions.contains_key(key) {
        versions[key]
    } else {
        0
    }
}

impl CodeServer {
    pub open spec fn wf(&self) -> bool {
        self.atoms.wf()
    }

    /// A code server that knows no module, and of atoms only those that the
    /// runtime itself speaks of.
    pub fn new() -> (srv: CodeServer)
        ensures
            srv.wf(),
            srv.atoms@ == known_atoms(),
            srv.versions@ == Map::<u64, usize>::empty(),
    {
        let mut atoms = AtomTable::new();
        register_known_atoms(&mut atoms);
        CodeServer { atoms, versions: BTreeMap::new() }
    }

    /// A fresh version for the module of this name: the one after the last
    /// that was handed out for it.  The first version of a name is 1.
    pub fn next_module_version(&mut self, module: Term) -> (v: usize)
        requires
            module@ is Atom,
        ensures
            v == version_after(last_version(old(self).versions@, module@->Atom_0 as u64)),
            final(self).versions@ == old(self).versions@.insert(module@->Atom_0 as u64, v),
            final(self).atoms == old(self).atoms,
    {
        let key: u64 = module.atom_index();
        let last: usize = match lookup(&self.versions, key) {
            Some(v) => v,
            None => 0,
        };
        let v: usize = if last < usize::MAX {
            last + 1
        } else {
            last
        };
        store(&mut self.versions, key, v);
        v
    }
}

} // verus!
