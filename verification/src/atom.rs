//! The global atom table: every atom name once, in the order of arrival.
//!
//! An atom term carries the index of its name.  The table only grows, so an
//! index means the same name for as long as the table lives.
use vstd::prelude::*;
use crate::fail::{ExceptionClass, ExceptionReason, RtErr};
use crate::term::{word_of_kind, Term, TermKind, SPECIAL_LIMIT};

verus! {

/// Whether no name stands twice in the table.
pub open spec fn distinct(table: Seq<Seq<u8>>) -> bool {
    forall|i: int, j: int| 0 <= i < j < table.len() ==> table[i] != table[j]
}

/// Whether the table holds the name.
pub open spec fn knows(table: Seq<Seq<u8>>, name: Seq<u8>) -> bool {
    exists|i: int| 0 <= i < table.len() && table[i] == name
}

/// An index at which the table holds the name.
pub open spec fn index_of(table: Seq<Seq<u8>>, name: Seq<u8>) -> int {
    choose|i: int| 0 <= i < table.len() && table[i] == name
}

/// The index that interning gives the name.
pub open spec fn interned_index(table: Seq<Seq<u8>>, name: Seq<u8>) -> int {
    if knows(table, name) {
        index_of(table, name)
    } else {
        table.len() as int
    }
}

/// The table after the name was interned.
pub open spec fn interned_table(table: Seq<Seq<u8>>, name: Seq<u8>) -> Seq<Seq<u8>> {
    if knows(table, name) {
        table
    } else {
        table.push(name)
    }
}

/// Whether `longer` begins with `table`.
pub open spec fn grows_from(longer: Seq<Seq<u8>>, table: Seq<Seq<u8>>) -> bool {
    &&& table.len() <= longer.len()
    &&& forall|i: int| 0 <= i < table.len() ==> longer[i] == table[i]
}

/// Interning keeps the table free of repetitions and only appends to it,
/// and the name stands at the index that it gives.
pub proof fn lemma_interned(table: Seq<Seq<u8>>, name: Seq<u8>)
    requires
        distinct(table),
    ensures
        distinct(interned_table(table, name)),
        grows_from(interned_table(table, name), table),
        0 <= interned_index(table, name) < interned_table(table, name).len(),
        interned_table(table, name)[interned_index(table, name)] == name,
{
}

/// An atom is interned once: after a name was interned, interning it again
/// gives the same index and changes nothing, however the table has grown in
/// between.
pub proof fn lemma_intern_again(table: Seq<Seq<u8>>, name: Seq<u8>, later: Seq<Seq<u8>>)
    requires
        distinct(table),
        distinct(later),
        grows_from(later, interned_table(table, name)),
    ensures
        interned_index(later, name) == interned_index(table, name),
        interned_table(later, name) == later,
{
    lemma_interned(table, name);
    let i = interned_index(table, name);
    assert(later[i] == name);
    assert(knows(later, name));
    let j = index_of(later, name);
    if i < j {
        assert(later[i] != later[j]);
    } else if j < i {
        assert(later[j] != later[i]);
    }
}

#[derive(Debug)]
pub struct AtomTable {
    names: Vec<Vec<u8>>,
}

impl View for AtomTable {
    type V = Seq<Seq<u8>>;

    /// The names, by index.
    closed spec fn view(&self) -> Seq<Seq<u8>> {
        Seq::new(self.names@.len(), |i: int| self.names@[i]@)
    }
}

impl AtomTable {
    /// No name stands twice, and every index fits in an atom term.
    pub open spec fn wf(&self) -> bool {
        &&& distinct(self@)
        &&& self@.len() <= SPECIAL_LIMIT
    }

    /// An empty table.
    pub fn new() -> (t: AtomTable)
        ensures
            t@.len() == 0,
            t.wf(),
    {
        AtomTable { names: Vec::new() }
    }

    /// The number of atoms.
    pub fn len(&self) -> (n: usize)
        ensures
            n == self@.len(),
    {
        self.names.len()
    }

    /// The index of the name, if the table holds it.
    pub fn find(&self, name: &[u8]) -> (r: Option<usize>)
        ensures
            r is Some <==> knows(self@, name@),
            r matches Some(i) ==> i < self@.len() && self@[i as int] == name@,
    {
        let mut i: usize = 0;
        while i < self.names.len()
            invariant
                i <= self.names@.len(),
                forall|k: int| 0 <= k < i ==> self@[k] != name@,
            decreases self.names@.len() - i,
        {
            if bytes_equal(self.names[i].as_slice(), name) {
                assert(self@[i as int] == name@);
                return Some(i);
            }
            i += 1;
        }
        None
    }

    /// The atom of the name: the one that the table holds, or a new one at
    /// the end of the table.  Fails, with `system_limit`, exactly when the
    /// name is new and the table is full.
    pub fn intern(&mut self, name: &[u8]) -> (r: Result<Term, RtErr>)
        requires
            old(self).wf(),
        ensures
            final(self).wf(),
            knows(old(self)@, name@) || old(self)@.len() < SPECIAL_LIMIT ==> {
                &&& r matches Ok(t)
                &&& t@ == TermKind::Atom(interned_index(old(self)@, name@) as nat)
                &&& t.value == word_of_kind(t@)
                &&& final(self)@ == interned_table(old(self)@, name@)
            },
            !knows(old(self)@, name@) && old(self)@.len() >= SPECIAL_LIMIT ==> {
                &&& r == Err::<Term, RtErr>(
                    RtErr::Exception(ExceptionClass::Error, ExceptionReason::SystemLimit),
                )
                &&& final(self)@ == old(self)@
            },
    {
        match self.find(name) {
            Some(i) => {
                proof {
                    let j = index_of(self@, name@);
                    if (i as int) < j {
                        assert(self@[i as int] != self@[j]);
                    } else if j < i as int {
                        assert(self@[j] != self@[i as int]);
                    }
                }
                Ok(Term::make_atom(i as u64))
            },
            None => {
                let n: usize = self.names.len();
                if n as u64 >= SPECIAL_LIMIT {
                    return Err(RtErr::Exception(ExceptionClass::Error, ExceptionReason::SystemLimit));
                }
                let mut copy: Vec<u8> = Vec::new();
                let mut k: usize = 0;
                while k < name.len()
                    invariant
                        k <= name@.len(),
                        copy@ == name@.subrange(0, k as int),
                    decreases name@.len() - k,
                {
                    copy.push(name[k]);
                    k += 1;
                    assert(copy@ =~= name@.subrange(0, k as int));
                }
                assert(copy@ =~= name@);
                let ghost before = self@;
                self.names.push(copy);
                proof {
                    assert(self@ =~= before.push(name@));
                    lemma_interned(before, name@);
                }
                Ok(Term::make_atom(n as u64))
            },
        }
    }

    /// The name of the atom, if the table holds it.
    pub fn name_of(&self, atom: Term) -> (r: Option<&Vec<u8>>)
        ensures
            atom@ is Atom && atom@->Atom_0 < self@.len() ==> {
                &&& r matches Some(name)
                &&& name@ == self@[atom@->Atom_0 as int]
            },
            !(atom@ is Atom && atom@->Atom_0 < self@.len()) ==> r.is_none(),
    {
        if !atom.is_atom() {
            return None;
        }
        let index: u64 = atom.atom_index();
        if index >= self.names.len() as u64 {
            return None;
        }
        Some(&self.names[index as usize])
    }
}

/// Whether two byte strings are the same.
pub fn bytes_equal(a: &[u8], b: &[u8]) -> (same: bool)
    ensures
        same == (a@ == b@),
{
    if a.len() != b.len() {
        return false;
    }
    let mut i: usize = 0;
    while i < a.len()
        invariant
            i <= a@.len(),
            a@.len() == b@.len(),
            a@.subrange(0, i as int) == b@.subrange(0, i as int),
        decreases a@.len() - i,
    {
        if a[i] != b[i] {
            return false;
        }
        i += 1;
        assert(a@.subrange(0, i as int) =~= a@.subrange(0, i - 1).push(a@[i - 1]));
        assert(b@.subrange(0, i as int) =~= b@.subrange(0, i - 1).push(b@[i - 1]));
    }
    assert(a@ =~= a@.subrange(0, i as int));
    assert(b@ =~= b@.subrange(0, i as int));
    true
}

} // verus!
