//! The atoms that the runtime itself speaks of.  They stand first in every
//! atom table, so that their indices are known.
use vstd::prelude::*;
use crate::atom::{distinct, knows, AtomTable};

verus! {

/// `erlang`
pub const ATOM_ERLANG: u64 = 0;

/// `+`
pub const ATOM_PLUS: u64 = 1;

/// `-`
pub const ATOM_MINUS: u64 = 2;

/// `*`
pub const ATOM_TIMES: u64 = 3;

/// `div`
pub const ATOM_DIV: u64 = 4;

/// `rem`
pub const ATOM_REM: u64 = 5;

/// The names of the known atoms, by index.
pub open spec fn known_atoms() -> Seq<Seq<u8>> {
    seq![
        seq![101u8, 114u8, 108u8, 97u8, 110u8, 103u8],
        seq![43u8],
        seq![45u8],
        seq![42u8],
        seq![100u8, 105u8, 118u8],
        seq![114u8, 101u8, 109u8],
    ]
}

/// Registers the known atoms in an empty table.
pub fn register_known_atoms(atoms: &mut AtomTable)
    requires
        old(atoms)@.len() == 0,
        old(atoms).wf(),
    ensures
        final(atoms).wf(),
        final(atoms)@ == known_atoms(),
{
    let mut erlang: Vec<u8> = Vec::new();
    erlang.push(101);
    erlang.push(114);
    erlang.push(108);
    erlang.push(97);
    erlang.push(110);
    erlang.push(103);
    let mut plus: Vec<u8> = Vec::new();
    plus.push(43);
    let mut minus: Vec<u8> = Vec::new();
    minus.push(45);
    let mut times: Vec<u8> = Vec::new();
    times.push(42);
    let mut div: Vec<u8> = Vec::new();
    div.push(100);
    div.push(105);
    div.push(118);
    let mut rem: Vec<u8> = Vec::new();
    rem.push(114);
    rem.push(101);
    rem.push(109);
    let ghost names = known_atoms();
    proof {
        assert(erlang@ =~= names[0]);
        assert(plus@ =~= names[1]);
        assert(minus@ =~= names[2]);
        assert(times@ =~= names[3]);
        assert(div@ =~= names[4]);
        assert(rem@ =~= names[5]);
        assert(names[0][0] == 101 && names[1][0] == 43 && names[2][0] == 45 && names[3][0] == 42
            && names[4][0] == 100 && names[5][0] == 114);
        assert(distinct(names)) by {
            assert forall|i: int, j: int| 0 <= i < j < names.len() implies names[i] != names[j] by {
                assert(names[i][0] != names[j][0]);
            }
        }
    }
    assert(atoms@ =~= names.subrange(0, 0));
    intern_new(atoms, &erlang, Ghost(0));
    intern_new(atoms, &plus, Ghost(1));
    intern_new(atoms, &minus, Ghost(2));
    intern_new(atoms, &times, Ghost(3));
    intern_new(atoms, &div, Ghost(4));
    intern_new(atoms, &rem, Ghost(5));
    assert(atoms@ =~= names);
}

/// Interns known atom `i` in a table that holds the known atoms before it.
fn intern_new(atoms: &mut AtomTable, name: &Vec<u8>, Ghost(i): Ghost<int>)
    requires
        old(atoms).wf(),
        0 <= i < known_atoms().len(),
        name@ == known_atoms()[i],
        old(atoms)@ == known_atoms().subrange(0, i),
        distinct(known_atoms()),
    ensures
        final(atoms).wf(),
        final(atoms)@ == known_atoms().subrange(0, i + 1),
{
    let ghost names = known_atoms();
    proof {
        if knows(atoms@, name@) {
            let j = choose|j: int| 0 <= j < atoms@.len() && atoms@[j] == name@;
            assert(names[j] == names[i]);
        }
    }
    let interned = atoms.intern(name.as_slice());
    assert(atoms@ =~= names.subrange(0, i + 1));
}

} // verus!
