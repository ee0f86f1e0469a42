//! The instruction set: opcode numbers and how many operands each takes.
use vstd::prelude::*;

verus! {

/// An opcode as it stands in the code chunk.
#[derive(Clone, Copy, Debug, PartialEq, Eq, Structural)]
pub struct RawOpcode(pub u8);

impl RawOpcode {
    pub fn get(self) -> (n: u8)
        ensures
            n == self.0,
    {
        self.0
    }
}

/// One more than the last opcode number.  An opcode byte of this value or
/// above names no instruction, and neither does zero.
pub const OPCODE_MAX: u8 = 160;

/// The most operands that an instruction takes.
pub const ARITY_MAX: u8 = 8;

pub const OPCODE_LABEL: u8 = 1;

pub const OPCODE_FUNC_INFO: u8 = 2;

pub const OPCODE_INT_CODE_END: u8 = 3;

pub const OPCODE_CALL: u8 = 4;

pub const OPCODE_CALL_LAST: u8 = 5;

pub const OPCODE_CALL_ONLY: u8 = 6;

pub const OPCODE_CALL_EXT: u8 = 7;

pub const OPCODE_CALL_EXT_LAST: u8 = 8;

pub const OPCODE_BIF0: u8 = 9;

pub const OPCODE_BIF1: u8 = 10;

pub const OPCODE_BIF2: u8 = 11;

pub const OPCODE_ALLOCATE: u8 = 12;

pub const OPCODE_ALLOCATE_HEAP: u8 = 13;

pub const OPCODE_ALLOCATE_ZERO: u8 = 14;

pub const OPCODE_ALLOCATE_HEAP_ZERO: u8 = 15;

pub const OPCODE_TEST_HEAP: u8 = 16;

pub const OPCODE_INIT: u8 = 17;

pub const OPCODE_DEALLOCATE: u8 = 18;

pub const OPCODE_RETURN: u8 = 19;

pub const OPCODE_SEND: u8 = 20;

pub const OPCODE_REMOVE_MESSAGE: u8 = 21;

pub const OPCODE_TIMEOUT: u8 = 22;

pub const OPCODE_LOOP_REC: u8 = 23;

pub const OPCODE_LOOP_REC_END: u8 = 24;

pub const OPCODE_WAIT: u8 = 25;

pub const OPCODE_WAIT_TIMEOUT: u8 = 26;

pub const OPCODE_M_PLUS: u8 = 27;

pub const OPCODE_M_MINUS: u8 = 28;

pub const OPCODE_M_TIMES: u8 = 29;

pub const OPCODE_M_DIV: u8 = 30;

pub const OPCODE_INT_DIV: u8 = 31;

pub const OPCODE_INT_REM: u8 = 32;

pub const OPCODE_INT_BAND: u8 = 33;

pub const OPCODE_INT_BOR: u8 = 34;

pub const OPCODE_INT_BXOR: u8 = 35;

pub const OPCODE_INT_BSL: u8 = 36;

pub const OPCODE_INT_BSR: u8 = 37;

pub const OPCODE_INT_BNOT: u8 = 38;

pub const OPCODE_IS_LT: u8 = 39;

pub const OPCODE_IS_GE: u8 = 40;

pub const OPCODE_IS_EQ: u8 = 41;

pub const OPCODE_IS_NE: u8 = 42;

pub const OPCODE_IS_EQ_EXACT: u8 = 43;

pub const OPCODE_IS_NE_EXACT: u8 = 44;

pub const OPCODE_IS_INTEGER: u8 = 45;

pub const OPCODE_IS_FLOAT: u8 = 46;

pub const OPCODE_IS_NUMBER: u8 = 47;

pub const OPCODE_IS_ATOM: u8 = 48;

pub const OPCODE_IS_PID: u8 = 49;

pub const OPCODE_IS_REFERENCE: u8 = 50;

pub const OPCODE_IS_PORT: u8 = 51;

pub const OPCODE_IS_NIL: u8 = 52;

pub const OPCODE_IS_BINARY: u8 = 53;

pub const OPCODE_IS_CONSTANT: u8 = 54;

pub const OPCODE_IS_LIST: u8 = 55;

pub const OPCODE_IS_NONEMPTY_LIST: u8 = 56;

pub const OPCODE_IS_TUPLE: u8 = 57;

pub const OPCODE_TEST_ARITY: u8 = 58;

pub const OPCODE_SELECT_VAL: u8 = 59;

pub const OPCODE_SELECT_TUPLE_ARITY: u8 = 60;

pub const OPCODE_JUMP: u8 = 61;

pub const OPCODE_CATCH: u8 = 62;

pub const OPCODE_CATCH_END: u8 = 63;

pub const OPCODE_MOVE: u8 = 64;

pub const OPCODE_GET_LIST: u8 = 65;

pub const OPCODE_GET_TUPLE_ELEMENT: u8 = 66;

pub const OPCODE_SET_TUPLE_ELEMENT: u8 = 67;

pub const OPCODE_PUT_STRING: u8 = 68;

pub const OPCODE_PUT_LIST: u8 = 69;

pub const OPCODE_PUT_TUPLE: u8 = 70;

pub const OPCODE_PUT: u8 = 71;

pub const OPCODE_BADMATCH: u8 = 72;

pub const OPCODE_IF_END: u8 = 73;

pub const OPCODE_CASE_END: u8 = 74;

pub const OPCODE_CALL_FUN: u8 = 75;

pub const OPCODE_MAKE_FUN: u8 = 76;

pub const OPCODE_IS_FUNCTION: u8 = 77;

pub const OPCODE_CALL_EXT_ONLY: u8 = 78;

pub const OPCODE_BS_START_MATCH: u8 = 79;

pub const OPCODE_BS_GET_INTEGER: u8 = 80;

pub const OPCODE_BS_GET_FLOAT: u8 = 81;

pub const OPCODE_BS_GET_BINARY: u8 = 82;

pub const OPCODE_BS_SKIP_BITS: u8 = 83;

pub const OPCODE_BS_TEST_TAIL: u8 = 84;

pub const OPCODE_BS_SAVE: u8 = 85;

pub const OPCODE_BS_RESTORE: u8 = 86;

pub const OPCODE_BS_INIT: u8 = 87;

pub const OPCODE_BS_FINAL: u8 = 88;

pub const OPCODE_BS_PUT_INTEGER: u8 = 89;

pub const OPCODE_BS_PUT_BINARY: u8 = 90;

pub const OPCODE_BS_PUT_FLOAT: u8 = 91;

pub const OPCODE_BS_PUT_STRING: u8 = 92;

pub const OPCODE_BS_NEED_BUF: u8 = 93;

pub const OPCODE_FCLEARERROR: u8 = 94;

pub const OPCODE_FCHECKERROR: u8 = 95;

pub const OPCODE_FMOVE: u8 = 96;

pub const OPCODE_FCONV: u8 = 97;

pub const OPCODE_FADD: u8 = 98;

pub const OPCODE_FSUB: u8 = 99;

pub const OPCODE_FMUL: u8 = 100;

pub const OPCODE_FDIV: u8 = 101;

pub const OPCODE_FNEGATE: u8 = 102;

pub const OPCODE_MAKE_FUN2: u8 = 103;

pub const OPCODE_TRY: u8 = 104;

pub const OPCODE_TRY_END: u8 = 105;

pub const OPCODE_TRY_CASE: u8 = 106;

pub const OPCODE_TRY_CASE_END: u8 = 107;

pub const OPCODE_RAISE: u8 = 108;

pub const OPCODE_BS_INIT2: u8 = 109;

pub const OPCODE_BS_BITS_TO_BYTES: u8 = 110;

pub const OPCODE_BS_ADD: u8 = 111;

pub const OPCODE_APPLY: u8 = 112;

pub const OPCODE_APPLY_LAST: u8 = 113;

pub const OPCODE_IS_BOOLEAN: u8 = 114;

pub const OPCODE_IS_FUNCTION2: u8 = 115;

pub const OPCODE_BS_START_MATCH2: u8 = 116;

pub const OPCODE_BS_GET_INTEGER2: u8 = 117;

pub const OPCODE_BS_GET_FLOAT2: u8 = 118;

pub const OPCODE_BS_GET_BINARY2: u8 = 119;

pub const OPCODE_BS_SKIP_BITS2: u8 = 120;

pub const OPCODE_BS_TEST_TAIL2: u8 = 121;

pub const OPCODE_BS_SAVE2: u8 = 122;

pub const OPCODE_BS_RESTORE2: u8 = 123;

pub const OPCODE_GC_BIF1: u8 = 124;

pub const OPCODE_GC_BIF2: u8 = 125;

pub const OPCODE_BS_FINAL2: u8 = 126;

pub const OPCODE_BS_BITS_TO_BYTES2: u8 = 127;

pub const OPCODE_PUT_LITERAL: u8 = 128;

pub const OPCODE_IS_BITSTR: u8 = 129;

pub const OPCODE_BS_CONTEXT_TO_BINARY: u8 = 130;

pub const OPCODE_BS_TEST_UNIT: u8 = 131;

pub const OPCODE_BS_MATCH_STRING: u8 = 132;

pub const OPCODE_BS_INIT_WRITABLE: u8 = 133;

pub const OPCODE_BS_APPEND: u8 = 134;

pub const OPCODE_BS_PRIVATE_APPEND: u8 = 135;

pub const OPCODE_TRIM: u8 = 136;

pub const OPCODE_BS_INIT_BITS: u8 = 137;

pub const OPCODE_BS_GET_UTF8: u8 = 138;

pub const OPCODE_BS_SKIP_UTF8: u8 = 139;

pub const OPCODE_BS_GET_UTF16: u8 = 140;

pub const OPCODE_BS_SKIP_UTF16: u8 = 141;

pub const OPCODE_BS_GET_UTF32: u8 = 142;

pub const OPCODE_BS_SKIP_UTF32: u8 = 143;

pub const OPCODE_BS_UTF8_SIZE: u8 = 144;

pub const OPCODE_BS_PUT_UTF8: u8 = 145;

pub const OPCODE_BS_UTF16_SIZE: u8 = 146;

pub const OPCODE_BS_PUT_UTF16: u8 = 147;

pub const OPCODE_BS_PUT_UTF32: u8 = 148;

pub const OPCODE_ON_LOAD: u8 = 149;

pub const OPCODE_RECV_MARK: u8 = 150;

pub const OPCODE_RECV_SET: u8 = 151;

pub const OPCODE_GC_BIF3: u8 = 152;

pub const OPCODE_LINE: u8 = 153;

pub const OPCODE_PUT_MAP_ASSOC: u8 = 154;

pub const OPCODE_PUT_MAP_EXACT: u8 = 155;

pub const OPCODE_IS_MAP: u8 = 156;

pub const OPCODE_HAS_MAP_FIELDS: u8 = 157;

pub const OPCODE_GET_MAP_ELEMENTS: u8 = 158;

pub const OPCODE_IS_TAGGED_TUPLE: u8 = 159;

/// Whether the byte names an instruction.
pub open spec fn valid_opcode(op: u8) -> bool {
    1 <= op < OPCODE_MAX
}

/// The number of operands of an opcode; zero for a byte that names no
/// instruction.
pub open spec fn arity_of(op: u8) -> u8 {
    match op {
        1 | 17 | 18 | 24 | 25 | 61 | 63 | 71 | 72 | 74 | 75 | 85 | 86 | 93 | 95 | 103 | 105 |
        106 | 107 | 112 | 130 | 150 | 151 | 153 => 1,
        4 | 6 | 7 | 9 | 12 | 14 | 16 | 23 | 26 | 45 | 46 | 47 | 48 | 49 | 50 | 51 | 52 | 53 |
        54 | 55 | 56 | 57 | 62 | 64 | 70 | 77 | 78 | 79 | 84 | 87 | 88 | 92 | 96 | 97 | 104 |
        108 | 113 | 114 | 122 | 123 | 126 | 127 | 128 | 129 | 136 | 156 => 2,
        2 | 5 | 8 | 13 | 15 | 38 | 39 | 40 | 41 | 42 | 43 | 44 | 58 | 59 | 60 | 65 | 66 | 67 |
        68 | 69 | 76 | 102 | 110 | 115 | 121 | 131 | 144 | 145 | 146 | 147 | 148 | 157 | 158 => 3,
        10 | 27 | 28 | 29 | 30 | 31 | 32 | 33 | 34 | 35 | 36 | 37 | 83 | 98 | 99 | 100 | 101 |
        132 | 139 | 141 | 143 | 159 => 4,
        11 | 80 | 81 | 82 | 89 | 90 | 91 | 111 | 116 | 120 | 124 | 138 | 140 | 142 | 154 | 155 => 5,
        109 | 125 | 135 | 137 => 6,
        117 | 118 | 119 | 152 => 7,
        134 => 8,
        _ => 0,
    }
}

/// The number of operands of an opcode.
pub fn opcode_arity(op: RawOpcode) -> (n: u8)
    ensures
        n == arity_of(op.0),
        n <= ARITY_MAX,
{
    match op.0 {
        1 | 17 | 18 | 24 | 25 | 61 | 63 | 71 | 72 | 74 | 75 | 85 | 86 | 93 | 95 | 103 | 105 |
        106 | 107 | 112 | 130 | 150 | 151 | 153 => 1,
        4 | 6 | 7 | 9 | 12 | 14 | 16 | 23 | 26 | 45 | 46 | 47 | 48 | 49 | 50 | 51 | 52 | 53 |
        54 | 55 | 56 | 57 | 62 | 64 | 70 | 77 | 78 | 79 | 84 | 87 | 88 | 92 | 96 | 97 | 104 |
        108 | 113 | 114 | 122 | 123 | 126 | 127 | 128 | 129 | 136 | 156 => 2,
        2 | 5 | 8 | 13 | 15 | 38 | 39 | 40 | 41 | 42 | 43 | 44 | 58 | 59 | 60 | 65 | 66 | 67 |
        68 | 69 | 76 | 102 | 110 | 115 | 121 | 131 | 144 | 145 | 146 | 147 | 148 | 157 | 158 => 3,
        10 | 27 | 28 | 29 | 30 | 31 | 32 | 33 | 34 | 35 | 36 | 37 | 83 | 98 | 99 | 100 | 101 |
        132 | 139 | 141 | 143 | 159 => 4,
        11 | 80 | 81 | 82 | 89 | 90 | 91 | 111 | 116 | 120 | 124 | 138 | 140 | 142 | 154 | 155 => 5,
        109 | 125 | 135 | 137 => 6,
        117 | 118 | 119 | 152 => 7,
        134 => 8,
        _ => 0,
    }
}

/// Whether the opcode names an instruction.
pub fn opcode_valid(op: RawOpcode) -> (b: bool)
    ensures
        b == valid_opcode(op.0),
{
    1 <= op.0 && op.0 < OPCODE_MAX
}

/// The check that every handler makes of itself: the opcode is in range and
/// takes `val` operands.  The call verifies only where that holds, so the
/// arity table and the handlers cannot disagree.
pub fn assert_arity(op: RawOpcode, val: u64)
    requires
        valid_opcode(op.0),
        arity_of(op.0) == val,
{
}

} // verus!
