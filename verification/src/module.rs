//! The module image: what the loader hands to the code server.
use vstd::prelude::*;
use std::collections::BTreeMap;
use crate::heap::Heap;
use crate::term::Term;

verus! {

broadcast use vstd::laws_cmp::group_laws_cmp;

/// A module's name together with the version under which it was loaded.
#[derive(Clone, Copy, Debug, PartialEq, Eq, Structural)]
pub struct VersionedModuleName {
    pub module: Term,
    pub version: u64,
}

/// A closure prototype: what `make_fun` builds closures from.
#[derive(Clone, Copy, Debug, PartialEq, Eq, Structural)]
pub struct FunEntry {
    /// The function's name, an atom.
    pub fun: Term,
    pub arity: u64,
    /// The label of the function's code.
    pub label: u64,
    pub index: u64,
    /// The number of captured terms.
    pub n_free: u64,
    pub old_uniq: u64,
}

/// The most arguments that a function takes.
pub const ARITY_LIMIT: u64 = 256;

/// The key of a function in a module's function table: its name and arity
/// in one number.
pub open spec fn fun_key(atom_index: nat, arity: nat) -> nat {
    atom_index * 256 + arity
}

/// A loaded module.  Nothing changes it once the loader has built it.
#[derive(Debug)]
pub struct Module {
    pub name: VersionedModuleName,
    /// The code: opcodes and their operands, one word each.
    pub code: Vec<u64>,
    /// The code offset of each function, by `fun_key`.
    pub funs: BTreeMap<u64, usize>,
    /// The literals that the code refers to.
    pub lit_heap: Heap,
    pub lambdas: Vec<FunEntry>,
    /// The imports, each a tuple `{M, F, Arity}` on the literal heap.
    pub imports: Vec<Term>,
}

impl Module {
    /// An empty module of this name.
    pub fn new(name: &VersionedModuleName) -> (m: Module)
        ensures
            m.name == *name,
            m.code@.len() == 0,
            m.funs@ == Map::<u64, usize>::empty(),
            m.lit_heap@.len() == 0,
            m.lit_heap.limit() == 0,
            m.lambdas@.len() == 0,
            m.imports@.len() == 0,
    {
        Module {
            name: *name,
            code: Vec::new(),
            funs: BTreeMap::new(),
            lit_heap: Heap::new(0),
            lambdas: Vec::new(),
            imports: Vec::new(),
        }
    }

    /// The code offset of the function with this name and arity, if the
    /// module defines it.
    pub fn find_fun(&self, fun: Term, arity: u64) -> (r: Option<usize>)
        ensures
            fun@ is Atom && arity < ARITY_LIMIT && self.funs@.contains_key(
                fun_key(fun@->Atom_0, arity as nat) as u64,
            ) ==> r == Some(self.funs@[fun_key(fun@->Atom_0, arity as nat) as u64]),
            !(fun@ is Atom && arity < ARITY_LIMIT && self.funs@.contains_key(
                fun_key(fun@->Atom_0, arity as nat) as u64,
            )) ==> r.is_none(),
    {
        if !fun.is_atom() || arity >= ARITY_LIMIT {
            return None;
        }
        let key: u64 = fun.atom_index() * 256 + arity;
        lookup(&self.funs, key)
    }
}

/// The value under `key`, if the map holds the key.
pub fn lookup(map: &BTreeMap<u64, usize>, key: u64) -> (r: Option<usize>)
    ensures
        map@.contains_key(key) ==> r == Some(map@[key]),
        !map@.contains_key(key) ==> r.is_none(),
{
    match map.get(&key) {
        Some(v) => Some(*v),
        None => None,
    }
}

/// Puts `value` under `key`.
pub fn store(map: &mut BTreeMap<u64, usize>, key: u64, value: usize)
    ensures
        final(map)@ == old(map)@.insert(key, value),
{
    let previous = map.insert(key, value);
}

} // verus!
