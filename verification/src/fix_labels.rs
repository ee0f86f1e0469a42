//! The label fixup: the last step of decoding the code.
//!
//! While the code is written, a label that is not yet known is written as
//! its number, a small integer, and the place is remembered.  The fixup
//! goes through those places and writes the code pointers.
use vstd::prelude::*;
use crate::fail::{Fault, ModuleFault, RtErr};
use crate::jump_table::{jump_table_at, jump_table_count, JumpTable};
use crate::loader::{LoaderState, PatchLocation};
use crate::module::lookup;
use crate::parse_code::{clean_code, gives_image, same_tables, Image};
use crate::term::{word_of_kind, Term, TermKind};

verus! {

/// The code offset that the placeholder `w` stands for: `w` is the number
/// of a label, and the label lies at a word of the code.
pub open spec fn target_of(w: u64, labels: Map<u64, usize>, code_len: nat) -> Option<usize> {
    let k = (Term { value: w })@;
    if k is Small && k->Small_0 >= 0 && labels.contains_key(k->Small_0 as u64) && labels[k->Small_0 as u64]
        < code_len {
        Some(labels[k->Small_0 as u64])
    } else {
        None
    }
}

/// The image with one place patched.  Fails with `UndefinedLabel` where the
/// place does not hold the number of a label that lies within the code.
pub open spec fn patch_one(img: Image, loc: PatchLocation) -> Result<Image, Fault> {
    match loc {
        PatchLocation::PatchCodeOffset(o) => if o < img.code.len() && target_of(
            img.code[o as int],
            img.labels,
            img.code.len(),
        ) is Some {
            Ok(
                Image {
                    code: img.code.update(
                        o as int,
                        word_of_kind(
                            TermKind::Cp(
                                target_of(img.code[o as int], img.labels, img.code.len())->Some_0 as nat,
                            ),
                        ),
                    ),
                    ..img
                },
            )
        } else {
            Err(Fault::MalformedModule(ModuleFault::UndefinedLabel))
        },
        PatchLocation::PatchJumpTable(jt, index) => if jt@ is Boxed && jump_table_at(
            img.heap,
            jt@->Boxed_0 as int,
        ) && index < 2 * jump_table_count(img.heap, jt@->Boxed_0 as int) && target_of(
            img.heap[jt@->Boxed_0 + 2 + index],
            img.labels,
            img.code.len(),
        ) is Some {
            Ok(
                Image {
                    heap: img.heap.update(
                        jt@->Boxed_0 + 2 + index,
                        word_of_kind(
                            TermKind::Cp(
                                target_of(
                                    img.heap[jt@->Boxed_0 + 2 + index],
                                    img.labels,
                                    img.code.len(),
                                )->Some_0 as nat,
                            ),
                        ),
                    ),
                    ..img
                },
            )
        } else {
            Err(Fault::MalformedModule(ModuleFault::UndefinedLabel))
        },
    }
}

/// The image with the places from `i` on patched, and no place left.
pub open spec fn patch_all(img: Image, patches: Seq<PatchLocation>, i: nat) -> Result<Image, Fault>
    decreases patches.len() - i,
{
    if i >= patches.len() {
        Ok(Image { patches: Seq::<PatchLocation>::empty(), ..img })
    } else {
        match patch_one(img, patches[i as int]) {
            Err(f) => Err(f),
            Ok(next) => patch_all(next, patches, i + 1),
        }
    }
}

impl LoaderState {
    /// The code offset that a placeholder stands for.
    fn label_target(&self, w: u64) -> (r: Option<usize>)
        ensures
            r == target_of(w, self.labels@, self.code@.len()),
    {
        let t = Term::from_raw(w);
        if !t.is_small() || t.get_small_signed() < 0 {
            return None;
        }
        match lookup(&self.labels, t.get_small_unsigned()) {
            Some(offset) => if offset < self.code.len() {
                Some(offset)
            } else {
                None
            },
            None => None,
        }
    }

    /// Patches one place.
    fn fix_label(&mut self, loc: PatchLocation) -> (r: Result<(), RtErr>)
        requires
            old(self).code_wf(),
        ensures
            same_tables(*final(self), *old(self)),
            gives_image(patch_one(old(self).image(), loc), r, *final(self)),
            r is Ok ==> final(self).code_wf() && final(self).code@.len() == old(self).code@.len(),
    {
        match loc {
            PatchLocation::PatchCodeOffset(o) => {
                if o >= self.code.len() {
                    return Err(RtErr::MalformedModule(ModuleFault::UndefinedLabel));
                }
                match self.label_target(self.code[o]) {
                    Some(target) => {
                        let w: u64 = self.create_jump_destination(target);
                        self.code[o] = w;
                        Ok(())
                    },
                    None => Err(RtErr::MalformedModule(ModuleFault::UndefinedLabel)),
                }
            },
            PatchLocation::PatchJumpTable(jt, index) => {
                let table: usize = match JumpTable::from_term(&self.lit_heap, jt) {
                    Ok(p) => p,
                    Err(e) => {
                        return Err(RtErr::MalformedModule(ModuleFault::UndefinedLabel));
                    },
                };
                let n: usize = JumpTable::get_count(&self.lit_heap, table);
                proof {
                    self.lit_heap.lemma_len_bound();
                }
                if index >= 2 * n {
                    return Err(RtErr::MalformedModule(ModuleFault::UndefinedLabel));
                }
                let slot: Term = JumpTable::get_element(&self.lit_heap, table, index);
                match self.label_target(slot.raw()) {
                    Some(target) => {
                        let w: u64 = self.create_jump_destination(target);
                        JumpTable::set_element(&mut self.lit_heap, table, index, Term::from_raw(w));
                        Ok(())
                    },
                    None => Err(RtErr::MalformedModule(ModuleFault::UndefinedLabel)),
                }
            },
        }
    }

    /// Writes the code pointer of every label that was not known when the
    /// code was written.  Fails with `UndefinedLabel` where the code refers
    /// to a label that it does not define.  On success no place is left to
    /// patch, and every code pointer in the code points to a word of the
    /// code.
    pub fn fix_labels(&mut self) -> (r: Result<(), RtErr>)
        requires
            old(self).code_wf(),
        ensures
            same_tables(*final(self), *old(self)),
            gives_image(patch_all(old(self).image(), old(self).replace_labels@, 0), r, *final(self)),
            r is Ok ==> {
                &&& final(self).code_wf()
                &&& final(self).replace_labels@.len() == 0
                &&& final(self).code@.len() == old(self).code@.len()
                &&& clean_code(final(self).code@)
            },
    {
        let ghost patches = self.replace_labels@;
        let ghost whole = patch_all(self.image(), patches, 0);
        let n: usize = self.replace_labels.len();
        let mut i: usize = 0;
        while i < n
            invariant
                i <= n,
                n == patches.len(),
                patches == old(self).replace_labels@,
                self.replace_labels@ == patches,
                same_tables(*self, *old(self)),
                self.code_wf(),
                self.code@.len() == old(self).code@.len(),
                patch_all(self.image(), patches, i as nat) == whole,
                whole == patch_all(old(self).image(), patches, 0),
            decreases n - i,
        {
            let loc: PatchLocation = self.replace_labels[i];
            match self.fix_label(loc) {
                Ok(()) => {},
                Err(e) => {
                    return Err(e);
                },
            }
            i += 1;
        }
        self.replace_labels.clear();
        Ok(())
    }
}

} // verus!
