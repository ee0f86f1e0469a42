use erlangrt::bignum::Bignum;
use erlangrt::bin_reader::BinaryReader;
use erlangrt::compact_term::{read, read_simple};
use erlangrt::fail::{CompactTermError, RtErr};
use erlangrt::heap::Heap;
use erlangrt::jump_table::JumpTable;
use erlangrt::term::{
    Term, SPECIAL_LT_ATOM, SPECIAL_LT_LABEL, SPECIAL_LT_LITERAL, SPECIAL_LT_REGFP,
    SPECIAL_LT_REGX, SPECIAL_LT_REGY,
};

fn decode(bytes: &[u8]) -> Result<Term, RtErr> {
    let mut r = BinaryReader::from_bytes(bytes.to_vec());
    let mut hp = Heap::new(1000);
    read(&mut r, &mut hp)
}

fn encode(t: Term) -> Vec<u8> {
    let mut out = Vec::new();
    assert!(erlangrt::compact_write::write(t, &mut out));
    out
}

#[test]
fn compact_term_range() {
    for v in [-1i64, 0, 1, 15, 16, 2047, 2048, 65535, 65536, -65536] {
        let t = Term::make_small_signed(v);
        let bytes = encode(t);
        let mut r = BinaryReader::from_bytes(bytes.clone());
        let mut hp = Heap::new(10);
        assert_eq!(read(&mut r, &mut hp), Ok(t), "value {}", v);
        assert_eq!(r.position(), bytes.len());
        assert_eq!(hp.allocated(), 0);
    }
}

#[test]
fn encoding_is_the_shortest_form() {
    assert_eq!(encode(Term::make_small_signed(0)), vec![0x01]);
    assert_eq!(encode(Term::make_small_signed(15)), vec![0xf1]);
    assert_eq!(encode(Term::make_small_signed(16)), vec![0x09, 16]);
    assert_eq!(encode(Term::make_small_signed(2047)), vec![0xe9, 0xff]);
    assert_eq!(encode(Term::make_small_signed(2048)), vec![0x19, 0x08, 0x00]);
    assert_eq!(encode(Term::make_small_signed(-1)), vec![0x19, 0xff, 0xff]);
    assert_eq!(encode(Term::make_small_signed(65535)), vec![0x39, 0x00, 0xff, 0xff]);
    assert_eq!(encode(Term::make_small_signed(-65536)), vec![0x39, 0xff, 0x00, 0x00]);
    assert_eq!(encode(Term::nil()), vec![0x02]);
    assert_eq!(encode(Term::make_loadtime(SPECIAL_LT_ATOM, 3)), vec![0x32]);
    assert_eq!(encode(Term::make_loadtime(SPECIAL_LT_REGX, 0)), vec![0x03]);
    assert_eq!(encode(Term::make_loadtime(SPECIAL_LT_REGY, 1)), vec![0x14]);
    assert_eq!(encode(Term::make_loadtime(SPECIAL_LT_LABEL, 7)), vec![0x75]);
    assert_eq!(encode(Term::make_loadtime(SPECIAL_LT_LITERAL, 2)), vec![0x07, 4, 0x20]);
    assert_eq!(encode(Term::make_loadtime(SPECIAL_LT_REGFP, 2)), vec![0x07, 2, 0x20]);
}

#[test]
fn every_encodable_term_round_trips() {
    let mut terms = vec![Term::nil()];
    let values = [
        1u64,
        15,
        16,
        255,
        2047,
        2048,
        32767,
        32768,
        (1 << 23) - 1,
        1 << 23,
        (1 << 31) - 1,
        1 << 31,
        (1 << 39) - 1,
        1 << 39,
        (1 << 47) - 1,
        1 << 47,
        (1 << 53) - 1,
    ];
    for tag in [
        SPECIAL_LT_ATOM,
        SPECIAL_LT_LABEL,
        SPECIAL_LT_REGX,
        SPECIAL_LT_REGY,
        SPECIAL_LT_LITERAL,
        SPECIAL_LT_REGFP,
    ] {
        for v in values {
            terms.push(Term::make_loadtime(tag, v));
        }
    }
    terms.push(Term::make_loadtime(SPECIAL_LT_REGX, 0));
    terms.push(Term::make_loadtime(SPECIAL_LT_LITERAL, 0));
    for v in values {
        terms.push(Term::make_small_signed(v as i64));
        terms.push(Term::make_small_signed(-(v as i64)));
    }
    terms.push(Term::make_small_signed((1 << 59) - 1));
    terms.push(Term::make_small_signed(-(1 << 59)));
    for t in terms {
        assert_eq!(decode(&encode(t)), Ok(t));
    }
}

#[test]
fn terms_without_an_encoding() {
    let mut out = vec![9u8];
    for t in [
        Term::make_atom(1),
        Term::make_boxed(0),
        Term::make_cp(1),
        Term::make_regx(1),
        Term::make_loadtime(SPECIAL_LT_ATOM, 0),
        Term::make_loadtime(SPECIAL_LT_LABEL, 0),
    ] {
        assert!(!erlangrt::compact_write::write(t, &mut out));
        assert_eq!(out, vec![9u8]);
    }
}

#[test]
fn tags_decode_to_their_terms() {
    assert_eq!(decode(&[0x50]), Ok(Term::make_small_signed(5)));
    assert_eq!(decode(&[0x51]), Ok(Term::make_small_signed(5)));
    assert_eq!(decode(&[0x52]), Ok(Term::make_loadtime(SPECIAL_LT_ATOM, 5)));
    assert_eq!(decode(&[0x02]), Ok(Term::nil()));
    assert_eq!(decode(&[0x53]), Ok(Term::make_loadtime(SPECIAL_LT_REGX, 5)));
    assert_eq!(decode(&[0x54]), Ok(Term::make_loadtime(SPECIAL_LT_REGY, 5)));
    assert_eq!(decode(&[0x55]), Ok(Term::make_loadtime(SPECIAL_LT_LABEL, 5)));
    assert_eq!(decode(&[0x05]), Ok(Term::nil()));
    assert_eq!(decode(&[0x56]), Ok(Term::make_small_signed(5)));
    assert_eq!(decode(&[0x07, 2, 0x30]), Ok(Term::make_loadtime(SPECIAL_LT_REGFP, 3)));
    assert_eq!(decode(&[0x07, 4, 0x30]), Ok(Term::make_loadtime(SPECIAL_LT_LITERAL, 3)));
    // two bytes: the upper three bits of the first, then the second
    assert_eq!(decode(&[0xe8, 0xff]), Ok(Term::make_small_signed(2047)));
    // unsigned bytes for a literal, signed for an integer
    assert_eq!(decode(&[0x18, 0xff, 0xff]), Ok(Term::make_small_signed(65535)));
    assert_eq!(decode(&[0x19, 0xff, 0xff]), Ok(Term::make_small_signed(-1)));
    // an allocation list: 2 entries, 3 words and 2 floats
    assert_eq!(decode(&[0x07, 3, 0x20, 0x00, 0x30, 0x10, 0x20]), Ok(Term::make_small_signed(7)));
}

#[test]
fn a_count_of_its_own() {
    // 0xf9: integer, the byte count follows as a literal: 0 + 9 bytes
    let mut bytes = vec![0xf9u8, 0x00];
    bytes.extend_from_slice(&[0, 0, 0, 0, 0, 0, 0, 0, 42]);
    assert_eq!(decode(&bytes), Ok(Term::make_small_signed(42)));
    let mut r = BinaryReader::from_bytes(vec![0xf9, 0x10, 1, 0, 0, 0, 0, 0, 0, 0, 0, 5]);
    let mut hp = Heap::new(100);
    let t = read(&mut r, &mut hp).unwrap();
    assert!(t.is_boxed());
    let big = Bignum::const_from_term(&hp, t).unwrap();
    assert!(!big.is_negative());
    assert_eq!(big.get_digits(), &[5u64, 1 << 8][..]);
    assert_eq!(r.position(), 12);
}

#[test]
fn integers_beyond_the_small_range_are_boxed() {
    let mut r = BinaryReader::from_bytes(vec![0xd9, 0x80, 0, 0, 0, 0, 0, 0, 0]);
    let mut hp = Heap::new(100);
    let t = read(&mut r, &mut hp).unwrap();
    assert_eq!(t, Term::make_boxed(0));
    let big = Bignum::const_from_term(&hp, t).unwrap();
    assert!(big.is_negative());
    assert_eq!(big.get_digits(), &[1u64 << 63][..]);
    let mut none = Heap::new(2);
    let mut again = BinaryReader::from_bytes(vec![0xd9, 0x80, 0, 0, 0, 0, 0, 0, 0]);
    assert_eq!(read(&mut again, &mut none), Err(RtErr::HeapOutOfMemory));
}

#[test]
fn a_list_becomes_a_jump_table() {
    // list of 4: atom 1 -> label 2, atom 3 -> label 4
    let bytes = vec![0x07u8, 1, 0x40, 0x12, 0x25, 0x32, 0x45];
    let mut r = BinaryReader::from_bytes(bytes);
    let mut hp = Heap::new(100);
    let t = read(&mut r, &mut hp).unwrap();
    let p = JumpTable::from_term(&hp, t).unwrap();
    assert_eq!(JumpTable::get_count(&hp, p), 2);
    assert_eq!(
        JumpTable::get_pair(&hp, p, 0),
        (Term::make_loadtime(SPECIAL_LT_ATOM, 1), Term::make_loadtime(SPECIAL_LT_LABEL, 2))
    );
    assert_eq!(
        JumpTable::get_pair(&hp, p, 1),
        (Term::make_loadtime(SPECIAL_LT_ATOM, 3), Term::make_loadtime(SPECIAL_LT_LABEL, 4))
    );
    assert_eq!(hp.allocated(), 6);
    assert!(r.eof());
}

fn extended(message: &str) -> RtErr {
    RtErr::CompactTerm(CompactTermError::BadExtendedTag(message.to_string()))
}

#[test]
fn every_fault_of_the_encoding() {
    assert_eq!(decode(&[]), Err(RtErr::UnexpectedEof));
    assert_eq!(decode(&[0x09]), Err(RtErr::UnexpectedEof));
    assert_eq!(decode(&[0x19, 0xff]), Err(RtErr::UnexpectedEof));
    assert_eq!(decode(&[0x07]), Err(RtErr::UnexpectedEof));
    assert_eq!(decode(&[0x07, 4]), Err(RtErr::UnexpectedEof));
    assert_eq!(decode(&[0x07, 1, 0x20, 0x12]), Err(RtErr::UnexpectedEof));
    let huge = [0xd8u8, 0xff, 0, 0, 0, 0, 0, 0, 0];
    let with = |tag: u8| {
        let mut b = huge.to_vec();
        b[0] = 0xd8 | tag;
        b
    };
    assert_eq!(decode(&with(0)), Err(RtErr::CompactTerm(CompactTermError::BadLiteralTag)));
    assert_eq!(decode(&with(2)), Err(RtErr::CompactTerm(CompactTermError::BadAtomTag)));
    assert_eq!(decode(&with(3)), Err(RtErr::CompactTerm(CompactTermError::BadXRegTag)));
    assert_eq!(decode(&with(4)), Err(RtErr::CompactTerm(CompactTermError::BadYRegTag)));
    assert_eq!(decode(&with(5)), Err(RtErr::CompactTerm(CompactTermError::BadLabelTag)));
    assert_eq!(decode(&with(6)), Err(RtErr::CompactTerm(CompactTermError::BadCharacterTag)));
    // the count of an integer's bytes is no literal
    assert_eq!(decode(&[0xf9, 0x01]), Err(RtErr::CompactTerm(CompactTermError::BadIntegerTag)));
    assert_eq!(decode(&[0x07, 0x17]), Err(extended("Ext tag 00010111 is unknown")));
    assert_eq!(decode(&[0x07, 0]), Err(extended("Ext tag 00000000 is unknown")));
    assert_eq!(decode(&[0x07, 1, 0x30, 1, 1, 1]), Err(extended("Ext list is malformed")));
    assert_eq!(decode(&[0x07, 1, 0x20, 0x07, 1, 0x00]), Err(extended("Ext list is malformed")));
    assert_eq!(
        decode(&[0x07, 3, 0x10, 0x20, 0x10]),
        Err(extended("Ext allocation list is malformed"))
    );
    assert_eq!(decode(&[0x07, 4, 0x01]), Err(RtErr::CompactTerm(CompactTermError::BadLiteralTag)));
}

#[test]
fn an_element_of_a_list_is_no_list() {
    let mut r = BinaryReader::from_bytes(vec![0x07, 1, 0x00]);
    let mut hp = Heap::new(10);
    assert_eq!(read_simple(&mut r, &mut hp), Err(extended("Ext list is malformed")));
    let mut s = BinaryReader::from_bytes(vec![0x31]);
    assert_eq!(read_simple(&mut s, &mut hp), Ok(Term::make_small_signed(3)));
}
