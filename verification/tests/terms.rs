use erlangrt::term::{
    Term, SMALL_MAX, SMALL_MIN, SPECIAL_LT_ATOM, SPECIAL_LT_LABEL, SPECIAL_LT_REGFP,
};

#[test]
fn small_integers_round_trip() {
    for v in [0i64, 1, -1, 15, 16, 2047, 2048, 65535, 65536, -65536, SMALL_MAX, SMALL_MIN] {
        assert!(Term::small_fits(v));
        let t = Term::make_small_signed(v);
        assert!(t.is_small());
        assert_eq!(t.get_small_signed(), v);
    }
}

#[test]
fn small_range_is_sixty_bits() {
    assert_eq!(SMALL_MAX, (1i64 << 59) - 1);
    assert_eq!(SMALL_MIN, -(1i64 << 59));
    assert!(!Term::small_fits(1 << 59));
    assert!(!Term::small_fits(-(1 << 59) - 1));
}

#[test]
fn small_word_is_the_shifted_value() {
    assert_eq!(Term::make_small_signed(5).raw(), 5 * 16 + 15);
    assert_eq!(Term::make_small_signed(-1).raw(), u64::MAX);
    assert_eq!(Term::make_small_unsigned(7).get_small_unsigned(), 7);
    assert_eq!(Term::small_0().raw(), 15);
    assert_eq!(Term::small_1().raw(), 31);
}

#[test]
fn tags_are_disjoint() {
    let terms = [
        Term::nil(),
        Term::make_small_signed(3),
        Term::make_atom(3),
        Term::make_boxed(3),
        Term::make_cons(3),
        Term::make_cp(3),
        Term::make_regx(3),
        Term::make_regy(3),
        Term::make_regfp(3),
        Term::make_opcode(3),
        Term::make_loadtime(SPECIAL_LT_ATOM, 3),
        Term::make_header(1, 3),
    ];
    for (i, t) in terms.iter().enumerate() {
        let tests = [
            t.is_nil(),
            t.is_small(),
            t.is_atom(),
            t.is_boxed(),
            t.is_cons(),
            t.is_cp(),
            t.is_regx(),
            t.is_regy(),
            t.is_regfp(),
            t.is_opcode(),
            t.is_loadtime(),
            t.is_header(),
        ];
        for (j, hit) in tests.iter().enumerate() {
            assert_eq!(*hit, i == j, "term {} under test {}", i, j);
        }
    }
}

#[test]
fn values_come_back_out() {
    assert_eq!(Term::make_atom(77).atom_index(), 77);
    assert_eq!(Term::make_boxed(1234).get_box_offset(), 1234);
    assert_eq!(Term::make_cons(99).get_cons_offset(), 99);
    assert_eq!(Term::make_cp(4).get_cp_offset(), 4);
    assert_eq!(Term::make_regx(255).get_special_value(), 255);
    let lt = Term::make_loadtime(SPECIAL_LT_LABEL, 40000);
    assert_eq!(lt.get_loadtime_tag(), SPECIAL_LT_LABEL);
    assert_eq!(lt.get_loadtime_val(), 40000);
    let fp = Term::make_loadtime(SPECIAL_LT_REGFP, 1);
    assert_eq!(fp.get_loadtime_tag(), SPECIAL_LT_REGFP);
    let h = Term::make_header(15, 8);
    assert_eq!(h.header_boxtype(), 15);
    assert_eq!(h.header_size(), 8);
    assert_eq!(Term::from_raw(h.raw()), h);
}
