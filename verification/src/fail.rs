//! The errors of the runtime.
use vstd::prelude::*;

verus! {

/// What went wrong while an operand of the compact-term encoding was decoded.
/// The variant names the tag of the operand whose size or value is out of
/// range; `BadExtendedTag` carries a message that shows the offending byte.
#[derive(Debug, PartialEq, Eq)]
pub enum CompactTermError {
    BadLiteralTag,
    BadAtomTag,
    BadXRegTag,
    BadYRegTag,
    BadLabelTag,
    BadCharacterTag,
    BadIntegerTag,
    BadExtendedTag(String),
}

/// The model of a [`CompactTermError`]: the message as characters.
pub enum TermFault {
    BadLiteralTag,
    BadAtomTag,
    BadXRegTag,
    BadYRegTag,
    BadLabelTag,
    BadCharacterTag,
    BadIntegerTag,
    BadExtendedTag(Seq<char>),
}

impl View for CompactTermError {
    type V = TermFault;

    open spec fn view(&self) -> TermFault {
        match self {
            CompactTermError::BadLiteralTag => TermFault::BadLiteralTag,
            CompactTermError::BadAtomTag => TermFault::BadAtomTag,
            CompactTermError::BadXRegTag => TermFault::BadXRegTag,
            CompactTermError::BadYRegTag => TermFault::BadYRegTag,
            CompactTermError::BadLabelTag => TermFault::BadLabelTag,
            CompactTermError::BadCharacterTag => TermFault::BadCharacterTag,
            CompactTermError::BadIntegerTag => TermFault::BadIntegerTag,
            CompactTermError::BadExtendedTag(msg) => TermFault::BadExtendedTag(msg@),
        }
    }
}

/// Which structural rule a module file breaks.
#[derive(Debug, Clone, Copy, PartialEq, Eq, Structural)]
pub enum ModuleFault {
    /// The file does not begin with `FOR1`.
    BadMagic,
    /// The form type is not `BEAM`.
    BadFormType,
    /// A chunk, or a table inside one, ends before its announced size.
    ShortChunk,
    /// One of the required chunks is absent.
    MissingChunk,
    /// Both an `Atom` and an `AtU8` chunk are present, or one of them twice.
    DuplicateAtomChunk,
    /// The literal table does not decompress to its announced size.
    BadLiterals,
    /// A table entry holds an atom index that the atom table lacks.
    BadAtomIndex,
    /// A table entry holds a value that no term can carry.
    BadTableEntry,
    /// The code refers to a label that it never defines.
    UndefinedLabel,
}

/// Class of an Erlang exception.
#[derive(Debug, Clone, Copy, PartialEq, Eq, Structural)]
pub enum ExceptionClass {
    Error,
    Exit,
    Throw,
}

/// Reason of an exception that the dispatch core itself raises.
#[derive(Debug, Clone, Copy, PartialEq, Eq, Structural)]
pub enum ExceptionReason {
    /// An operand is of the wrong type.
    Badarg,
    /// An arithmetic operand is no number.
    Badarith,
    /// No clause of the function matches: what `func_info` raises.
    FunctionClause,
    /// No code at the call's target.
    Undef,
    /// The opcode has no handler.
    UnknownOpcode,
    /// A limit of the machine is exhausted.
    SystemLimit,
}

#[derive(Debug, PartialEq, Eq)]
pub enum RtErr {
    /// A read went past the end of the buffer.
    UnexpectedEof,
    /// The module file is structurally wrong.
    MalformedModule(ModuleFault),
    /// An operand in the code chunk is wrongly encoded.
    CompactTerm(CompactTermError),
    /// The opcode byte is out of range.
    BadOpcode(u8),
    /// The operand at this position is of a kind that the opcode does not take.
    BadArg(u8, usize),
    /// The heap has no room for the allocation.
    HeapOutOfMemory,
    /// The term does not point to a bignum.
    BoxedIsNotABigint,
    /// The term does not point to a jump table.
    BoxedIsNotAJumpTable,
    /// The term does not point to a tuple.
    BoxedIsNotATuple,
    /// An Erlang exception.
    Exception(ExceptionClass, ExceptionReason),
}

/// The model of an [`RtErr`]: what the contracts of the runtime say of an
/// error.
pub enum Fault {
    UnexpectedEof,
    MalformedModule(ModuleFault),
    CompactTerm(TermFault),
    BadOpcode(u8),
    BadArg(u8, usize),
    HeapOutOfMemory,
    BoxedIsNotABigint,
    BoxedIsNotAJumpTable,
    BoxedIsNotATuple,
    Exception(ExceptionClass, ExceptionReason),
}

impl View for RtErr {
    type V = Fault;

    open spec fn view(&self) -> Fault {
        match self {
            RtErr::UnexpectedEof => Fault::UnexpectedEof,
            RtErr::MalformedModule(m) => Fault::MalformedModule(*m),
            RtErr::CompactTerm(c) => Fault::CompactTerm(c@),
            RtErr::BadOpcode(op) => Fault::BadOpcode(*op),
            RtErr::BadArg(op, i) => Fault::BadArg(*op, *i),
            RtErr::HeapOutOfMemory => Fault::HeapOutOfMemory,
            RtErr::BoxedIsNotABigint => Fault::BoxedIsNotABigint,
            RtErr::BoxedIsNotAJumpTable => Fault::BoxedIsNotAJumpTable,
            RtErr::BoxedIsNotATuple => Fault::BoxedIsNotATuple,
            RtErr::Exception(c, r) => Fault::Exception(*c, *r),
        }
    }
}

} // verus!
