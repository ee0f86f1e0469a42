use erlangrt::beam_file::BeamFile;
use erlangrt::code_srv::CodeServer;
use erlangrt::container::Chunk;
use erlangrt::container_write::write_container;
use erlangrt::fail::{CompactTermError, ModuleFault, RtErr};
use erlangrt::gen_op::{
    assert_arity, opcode_arity, opcode_valid, RawOpcode, OPCODE_FUNC_INFO, OPCODE_INT_CODE_END,
    OPCODE_JUMP, OPCODE_LABEL, OPCODE_LINE, OPCODE_MAX, OPCODE_MOVE, OPCODE_RETURN,
    OPCODE_SELECT_VAL,
};
use erlangrt::jump_table::JumpTable;
use erlangrt::load::load_module;
use erlangrt::loader::{LoaderState, PatchLocation, CODE_LIMIT};
use erlangrt::module::Module;
use erlangrt::parse_code::{op_badarg, LtInstruction};
use erlangrt::term::{
    Term, SPECIAL_LT_ATOM, SPECIAL_LT_LABEL, SPECIAL_LT_LITERAL, SPECIAL_LT_REGX,
};
use erlangrt::tuple::Tuple;

fn atom(n: u64) -> Term {
    Term::make_loadtime(SPECIAL_LT_ATOM, n)
}

fn label(n: u64) -> Term {
    Term::make_loadtime(SPECIAL_LT_LABEL, n)
}

fn x(n: u64) -> Term {
    Term::make_loadtime(SPECIAL_LT_REGX, n)
}

fn small(n: i64) -> Term {
    Term::make_small_signed(n)
}

fn op(out: &mut Vec<u8>, opcode: u8, args: &[Term]) {
    out.push(opcode);
    for a in args {
        assert!(erlangrt::compact_write::write(*a, out));
    }
}

fn words(values: &[u32]) -> Vec<u8> {
    values.iter().flat_map(|v| v.to_be_bytes()).collect()
}

fn chunk(tag: &[u8; 4], payload: Vec<u8>) -> Chunk {
    Chunk { tag: u32::from_be_bytes(*tag), payload }
}

fn atom_chunk(names: &[&str]) -> Chunk {
    let mut payload = (names.len() as u32).to_be_bytes().to_vec();
    for n in names {
        payload.push(n.len() as u8);
        payload.extend_from_slice(n.as_bytes());
    }
    chunk(b"AtU8", payload)
}

fn code_chunk(bytecode: &[u8]) -> Chunk {
    let mut payload = words(&[16, 0, 159, 8, 1]);
    payload.extend_from_slice(bytecode);
    chunk(b"Code", payload)
}

fn module_file(names: &[&str], bytecode: &[u8], extra: Vec<Chunk>) -> Vec<u8> {
    let mut chunks = vec![
        atom_chunk(names),
        code_chunk(bytecode),
        chunk(b"ImpT", words(&[0])),
        chunk(b"ExpT", words(&[0])),
    ];
    for c in extra {
        match chunks.iter().position(|have| have.tag == c.tag) {
            Some(i) => chunks[i] = c,
            None => chunks.push(c),
        }
    }
    write_container(&chunks).unwrap()
}

fn load(names: &[&str], bytecode: &[u8]) -> Result<Box<Module>, RtErr> {
    let mut srv = CodeServer::new();
    load_module(&mut srv, module_file(names, bytecode, vec![]))
}

fn smallest_module() -> Vec<u8> {
    let mut code = Vec::new();
    op(&mut code, OPCODE_LABEL, &[small(1)]);
    op(&mut code, OPCODE_LINE, &[small(0)]);
    op(&mut code, OPCODE_FUNC_INFO, &[atom(1), atom(2), small(0)]);
    op(&mut code, OPCODE_LABEL, &[small(2)]);
    op(&mut code, OPCODE_MOVE, &[atom(3), x(0)]);
    op(&mut code, OPCODE_RETURN, &[]);
    op(&mut code, OPCODE_INT_CODE_END, &[]);
    code
}

#[test]
fn smallest_module_loads() {
    let mut srv = CodeServer::new();
    let known = srv.atoms.len() as u64;
    let module =
        load_module(&mut srv, module_file(&["t", "f", "ok"], &smallest_module(), vec![])).unwrap();
    let t = Term::make_atom(known);
    let f = Term::make_atom(known + 1);
    let ok = Term::make_atom(known + 2);
    assert_eq!(srv.atoms.name_of(t), Some(&b"t".to_vec()));
    assert_eq!(srv.atoms.name_of(ok), Some(&b"ok".to_vec()));
    assert_eq!(module.name.module, t);
    assert_eq!(module.name.version, 1);
    assert_eq!(
        module.code,
        vec![
            Term::make_opcode(OPCODE_FUNC_INFO).raw(),
            t.raw(),
            f.raw(),
            Term::make_small_signed(0).raw(),
            Term::make_opcode(OPCODE_MOVE).raw(),
            ok.raw(),
            Term::make_regx(0).raw(),
            Term::make_opcode(OPCODE_RETURN).raw(),
            Term::make_opcode(OPCODE_INT_CODE_END).raw(),
        ]
    );
    let at = module.find_fun(f, 0).unwrap();
    assert_eq!(at, 4);
    assert_eq!(module.code[at], Term::make_opcode(OPCODE_MOVE).raw());
    assert_eq!(module.code[at + 3], Term::make_opcode(OPCODE_RETURN).raw());
    assert_eq!(module.find_fun(f, 1), None);
    assert_eq!(module.find_fun(ok, 0), None);
    assert_eq!(module.funs.len(), 1);
    assert!(module.imports.is_empty() && module.lambdas.is_empty());
}

#[test]
fn label_fixup() {
    let mut code = Vec::new();
    op(&mut code, OPCODE_LABEL, &[small(1)]);
    op(&mut code, OPCODE_JUMP, &[label(3)]);
    op(&mut code, OPCODE_LABEL, &[small(2)]);
    op(&mut code, OPCODE_JUMP, &[label(1)]);
    op(&mut code, OPCODE_LABEL, &[small(3)]);
    op(&mut code, OPCODE_RETURN, &[]);
    let module = load(&["t"], &code).unwrap();
    assert_eq!(module.code.len(), 5);
    let forward = Term::from_raw(module.code[1]);
    let backward = Term::from_raw(module.code[3]);
    assert!(forward.is_cp() && backward.is_cp());
    assert_eq!(
        module.code[forward.get_cp_offset() as usize],
        Term::make_opcode(OPCODE_RETURN).raw()
    );
    assert_eq!(
        module.code[backward.get_cp_offset() as usize],
        Term::make_opcode(OPCODE_JUMP).raw()
    );
    assert_eq!(forward.get_cp_offset(), 4);
    assert_eq!(backward.get_cp_offset(), 0);
}

#[test]
fn placeholders_before_the_fixup() {
    let mut code = Vec::new();
    op(&mut code, OPCODE_LABEL, &[small(1)]);
    op(&mut code, OPCODE_JUMP, &[label(3)]);
    op(&mut code, OPCODE_JUMP, &[label(1)]);
    op(&mut code, OPCODE_LABEL, &[small(3)]);
    op(&mut code, OPCODE_RETURN, &[]);
    let file = BeamFile::parse(module_file(&["t"], &code, vec![])).unwrap();
    let mut srv = CodeServer::new();
    let mut loader = LoaderState::new(file);
    assert_eq!(loader.stage2_register_atoms(&mut srv), Ok(()));
    assert_eq!(loader.code_size(loader.beam_file.code.clone()), Some(9));
    assert_eq!(loader.parse_raw_code(), Ok(()));
    assert_eq!(loader.code.len(), 5);
    assert!(loader.code.len() <= 9);
    assert_eq!(loader.code[1], Term::make_small_signed(3).raw());
    assert!(Term::from_raw(loader.code[3]).is_cp());
    assert_eq!(loader.replace_labels, vec![PatchLocation::PatchCodeOffset(1)]);
    assert_eq!(loader.labels.get(&1), Some(&0));
    assert_eq!(loader.labels.get(&3), Some(&4));
    assert_eq!(loader.fix_labels(), Ok(()));
    assert!(loader.replace_labels.is_empty());
    assert_eq!(loader.code[1], Term::make_cp(4).raw());
    assert_eq!(loader.module_name(), Term::make_atom(6));
    let module = loader.load_finalize().unwrap();
    assert_eq!(module.code.len(), 5);
    assert!(loader.code.is_empty());
}

#[test]
fn undefined_label() {
    let mut code = Vec::new();
    op(&mut code, OPCODE_LABEL, &[small(1)]);
    op(&mut code, OPCODE_JUMP, &[label(9)]);
    assert_eq!(
        load(&["t"], &code).unwrap_err(),
        RtErr::MalformedModule(ModuleFault::UndefinedLabel)
    );
    // a label behind the last word is no target either
    let mut end = Vec::new();
    op(&mut end, OPCODE_JUMP, &[label(2)]);
    op(&mut end, OPCODE_LABEL, &[small(2)]);
    assert_eq!(
        load(&["t"], &end).unwrap_err(),
        RtErr::MalformedModule(ModuleFault::UndefinedLabel)
    );
}

fn select_val_module() -> Vec<u8> {
    let mut code = Vec::new();
    op(&mut code, OPCODE_LABEL, &[small(1)]);
    code.push(OPCODE_SELECT_VAL);
    assert!(erlangrt::compact_write::write(x(0), &mut code));
    assert!(erlangrt::compact_write::write(label(4), &mut code));
    code.extend_from_slice(&[0x07, 1, 0x60]);
    for (a, l) in [(2u64, 2u64), (3, 3), (4, 1)] {
        assert!(erlangrt::compact_write::write(atom(a), &mut code));
        assert!(erlangrt::compact_write::write(label(l), &mut code));
    }
    op(&mut code, OPCODE_LABEL, &[small(2)]);
    op(&mut code, OPCODE_RETURN, &[]);
    op(&mut code, OPCODE_LABEL, &[small(3)]);
    op(&mut code, OPCODE_RETURN, &[]);
    op(&mut code, OPCODE_LABEL, &[small(4)]);
    op(&mut code, OPCODE_INT_CODE_END, &[]);
    code
}

#[test]
fn jump_table() {
    let mut srv = CodeServer::new();
    let known = srv.atoms.len() as u64;
    let module = load_module(
        &mut srv,
        module_file(&["t", "a", "b", "c"], &select_val_module(), vec![]),
    )
    .unwrap();
    assert_eq!(module.code.len(), 7);
    assert_eq!(module.code[0], Term::make_opcode(OPCODE_SELECT_VAL).raw());
    assert_eq!(module.code[1], Term::make_regx(0).raw());
    assert_eq!(module.code[2], Term::make_cp(6).raw());
    let table = JumpTable::from_term(&module.lit_heap, Term::from_raw(module.code[3])).unwrap();
    assert_eq!(JumpTable::get_count(&module.lit_heap, table), 3);
    let expect = [(known + 1, 4u64), (known + 2, 5), (known + 3, 0)];
    for (i, (a, target)) in expect.iter().enumerate() {
        let (value, l) = JumpTable::get_pair(&module.lit_heap, table, i);
        assert_eq!(value, Term::make_atom(*a));
        assert!(l.is_cp());
        assert_eq!(l.get_cp_offset(), *target);
    }
}

#[test]
fn jump_table_before_the_fixup() {
    let file = BeamFile::parse(module_file(&["t", "a", "b", "c"], &select_val_module(), vec![]))
        .unwrap();
    let mut srv = CodeServer::new();
    let mut loader = LoaderState::new(file);
    assert_eq!(loader.stage2_register_atoms(&mut srv), Ok(()));
    assert_eq!(loader.parse_raw_code(), Ok(()));
    let jt = Term::from_raw(loader.code[3]);
    // label 4 behind the opcode, labels 2 and 3 in the table; label 1 was known
    assert_eq!(
        loader.replace_labels,
        vec![
            PatchLocation::PatchCodeOffset(2),
            PatchLocation::PatchJumpTable(jt, 1),
            PatchLocation::PatchJumpTable(jt, 3),
        ]
    );
    let table = JumpTable::from_term(&loader.lit_heap, jt).unwrap();
    assert_eq!(JumpTable::get_element(&loader.lit_heap, table, 1), Term::make_small_signed(2));
    assert_eq!(JumpTable::get_element(&loader.lit_heap, table, 5), Term::make_cp(0));
    assert_eq!(loader.resolve_value(jt), Ok(jt));
    assert_eq!(loader.resolve_value(atom(2)), Ok(Term::make_atom(7)));
    assert_eq!(loader.resolve_value(atom(0)), Ok(Term::nil()));
    assert_eq!(
        loader.resolve_value(atom(5)).unwrap_err(),
        RtErr::MalformedModule(ModuleFault::BadAtomIndex)
    );
    assert_eq!(loader.resolve_value(x(1)), Ok(x(1)));
    assert_eq!(loader.atom_from_loadtime_index(0), Some(Term::nil()));
    assert_eq!(loader.atom_from_loadtime_index(4), Some(Term::make_atom(9)));
    assert_eq!(loader.atom_from_loadtime_index(5), None);
    assert_eq!(loader.create_jump_destination(12), Term::make_cp(12).raw());
}

#[test]
fn atom_identity() {
    let mut srv = CodeServer::new();
    let file = module_file(&["t", "f", "ok"], &smallest_module(), vec![]);
    let first = load_module(&mut srv, file.clone()).unwrap();
    let atoms_after_first = srv.atoms.len();
    let other = load_module(
        &mut srv,
        module_file(&["u", "ok", "g"], &smallest_module(), vec![]),
    )
    .unwrap();
    let second = load_module(&mut srv, file).unwrap();
    assert_eq!(first.code, second.code);
    assert_eq!(first.name.module, second.name.module);
    assert_eq!(first.name.version, 1);
    assert_eq!(second.name.version, 2);
    assert_eq!(other.name.version, 1);
    assert_eq!(srv.atoms.len(), atoms_after_first + 2);
    // `ok` is the same atom in both modules
    assert_eq!(first.code[5], other.code[2]);
    assert_eq!(srv.atoms.find(b"ok"), Some(8));
    assert_eq!(srv.atoms.find(b"erlang"), Some(0));
    assert_eq!(srv.atoms.find(b"nope"), None);
}

#[test]
fn bad_opcodes_and_operands() {
    assert_eq!(load(&["t"], &[0]).unwrap_err(), RtErr::BadOpcode(0));
    assert_eq!(load(&["t"], &[OPCODE_MAX]).unwrap_err(), RtErr::BadOpcode(OPCODE_MAX));
    assert_eq!(load(&["t"], &[255]).unwrap_err(), RtErr::BadOpcode(255));
    assert_eq!(load(&["t"], &[OPCODE_MOVE, 0x12]).unwrap_err(), RtErr::UnexpectedEof);
    let mut code = Vec::new();
    op(&mut code, OPCODE_LABEL, &[atom(1)]);
    assert_eq!(load(&["t"], &code).unwrap_err(), RtErr::BadArg(OPCODE_LABEL, 0));
    assert_eq!(op_badarg(RawOpcode(OPCODE_LABEL), 0), RtErr::BadArg(OPCODE_LABEL, 0));
    let mut info = Vec::new();
    op(&mut info, OPCODE_FUNC_INFO, &[atom(1), small(3), small(0)]);
    assert_eq!(load(&["t"], &info).unwrap_err(), RtErr::BadArg(OPCODE_FUNC_INFO, 1));
    let mut arity = Vec::new();
    op(&mut arity, OPCODE_FUNC_INFO, &[atom(1), atom(1), small(256)]);
    assert_eq!(load(&["t"], &arity).unwrap_err(), RtErr::BadArg(OPCODE_FUNC_INFO, 2));
    let mut lit = Vec::new();
    op(&mut lit, OPCODE_MOVE, &[Term::make_loadtime(SPECIAL_LT_LITERAL, 0), x(0)]);
    assert_eq!(load(&["t"], &lit).unwrap_err(), RtErr::BadArg(OPCODE_MOVE, 0));
    let mut gone = Vec::new();
    op(&mut gone, OPCODE_MOVE, &[atom(2), x(0)]);
    assert_eq!(
        load(&["t"], &gone).unwrap_err(),
        RtErr::MalformedModule(ModuleFault::BadAtomIndex)
    );
    assert_eq!(
        load(&["t"], &[OPCODE_MOVE, 0x07, 9, 0x03]).unwrap_err(),
        RtErr::CompactTerm(CompactTermError::BadExtendedTag(
            "Ext tag 00001001 is unknown".to_string()
        ))
    );
    assert_eq!(load(&[], &[3]).unwrap_err(), RtErr::MalformedModule(ModuleFault::MissingChunk));
    assert!(CODE_LIMIT >= 1 << 30);
}

#[test]
fn opcode_table() {
    assert_eq!(OPCODE_MAX, 160);
    assert!(!opcode_valid(RawOpcode(0)));
    assert!(opcode_valid(RawOpcode(1)));
    assert!(opcode_valid(RawOpcode(159)));
    assert!(!opcode_valid(RawOpcode(160)));
    let expect = [
        (1u8, 1u8),
        (2, 3),
        (3, 0),
        (4, 2),
        (19, 0),
        (59, 3),
        (61, 1),
        (64, 2),
        (124, 5),
        (125, 6),
        (134, 8),
        (152, 7),
        (153, 1),
        (159, 4),
        (0, 0),
        (200, 0),
    ];
    for (op, arity) in expect {
        assert_eq!(opcode_arity(RawOpcode(op)), arity, "opcode {}", op);
    }
    let total: u32 = (1..OPCODE_MAX).map(|op| opcode_arity(RawOpcode(op)) as u32).sum();
    assert_eq!(total, 443);
    assert_arity(RawOpcode(OPCODE_MOVE), 2);
    assert_eq!(RawOpcode(7).get(), 7);
    let mut instr = LtInstruction::new();
    assert_eq!(instr.opcode, RawOpcode(0));
    instr.args.push(Term::nil());
    instr.next(64);
    assert_eq!(instr.opcode, RawOpcode(64));
    assert!(instr.args.is_empty());
}

fn literal_chunk(terms: &[&[u8]]) -> Chunk {
    let mut plain = (terms.len() as u32).to_be_bytes().to_vec();
    for t in terms {
        plain.extend_from_slice(&(t.len() as u32).to_be_bytes());
        plain.extend_from_slice(t);
    }
    let mut payload = (plain.len() as u32).to_be_bytes().to_vec();
    payload.extend_from_slice(&miniz_oxide::deflate::compress_to_vec_zlib(&plain, 6));
    chunk(b"LitT", payload)
}

#[test]
fn literals_imports_and_lambdas() {
    let mut code = Vec::new();
    op(&mut code, OPCODE_LABEL, &[small(1)]);
    op(&mut code, OPCODE_MOVE, &[Term::make_loadtime(SPECIAL_LT_LITERAL, 1), x(0)]);
    op(&mut code, OPCODE_MOVE, &[Term::make_loadtime(SPECIAL_LT_LITERAL, 0), x(1)]);
    op(&mut code, OPCODE_RETURN, &[]);
    let tuple: &[u8] = &[131, 104, 3, 97, 7, 119, 2, b'o', b'k', 104, 1, 98, 0xff, 0xff, 0xff, 0xfe];
    let extra = vec![
        literal_chunk(&[&[131, 106], tuple]),
        chunk(b"ImpT", words(&[2, 1, 2, 3, 1, 2, 0])),
        chunk(b"FunT", words(&[1, 1, 3, 1, 2, 5, 77])),
    ];
    let mut srv = CodeServer::new();
    let module = load_module(&mut srv, module_file(&["t", "erlang", "*"], &code, extra)).unwrap();
    let t = module.name.module;
    assert_eq!(module.code[4], Term::nil().raw());
    let lit = Term::from_raw(module.code[1]);
    let p = Tuple::from_term(&module.lit_heap, lit).unwrap();
    assert_eq!(Tuple::get_arity(&module.lit_heap, p), 3);
    assert_eq!(Tuple::get_element(&module.lit_heap, p, 0), Term::make_small_signed(7));
    let ok = Tuple::get_element(&module.lit_heap, p, 1);
    assert_eq!(srv.atoms.name_of(ok), Some(&b"ok".to_vec()));
    let inner =
        Tuple::from_term(&module.lit_heap, Tuple::get_element(&module.lit_heap, p, 2)).unwrap();
    assert_eq!(Tuple::get_arity(&module.lit_heap, inner), 1);
    assert_eq!(Tuple::get_element(&module.lit_heap, inner, 0), Term::make_small_signed(-2));
    assert_eq!(module.imports.len(), 2);
    let first = Tuple::from_term(&module.lit_heap, module.imports[0]).unwrap();
    assert_eq!(Tuple::get_element(&module.lit_heap, first, 0), t);
    assert_eq!(Tuple::get_element(&module.lit_heap, first, 1), Term::make_atom(0));
    assert_eq!(Tuple::get_element(&module.lit_heap, first, 2), Term::make_small_signed(3));
    let second = Tuple::from_term(&module.lit_heap, module.imports[1]).unwrap();
    assert_eq!(Tuple::get_element(&module.lit_heap, second, 1), Term::make_atom(0));
    assert_eq!(Tuple::get_element(&module.lit_heap, second, 2), Term::make_small_signed(0));
    assert_eq!(module.lambdas.len(), 1);
    assert_eq!(module.lambdas[0].fun, t);
    assert_eq!(module.lambdas[0].arity, 3);
    assert_eq!(module.lambdas[0].n_free, 5);
    assert_eq!(module.lambdas[0].old_uniq, 77);
}

#[test]
fn lists_strings_and_big_integers() {
    let mut code = Vec::new();
    for i in 0..4 {
        op(&mut code, OPCODE_MOVE, &[Term::make_loadtime(SPECIAL_LT_LITERAL, i), x(i)]);
    }
    op(&mut code, OPCODE_RETURN, &[]);
    let list: &[u8] = &[131, 108, 0, 0, 0, 2, 97, 1, 104, 0, 106];
    let improper: &[u8] = &[131, 108, 0, 0, 0, 1, 97, 1, 97, 2];
    let string: &[u8] = &[131, 107, 0, 2, b'h', b'i'];
    let big: &[u8] = &[131, 110, 9, 1, 0, 0, 0, 0, 0, 0, 0, 0, 1];
    let extra = vec![literal_chunk(&[list, improper, string, big])];
    let mut srv = CodeServer::new();
    let module = load_module(&mut srv, module_file(&["t"], &code, extra)).unwrap();
    let hp = &module.lit_heap;
    let cell = |t: Term| {
        assert!(t.is_cons());
        let p = t.get_cons_offset() as usize;
        (Term::from_raw(hp.get(p)), Term::from_raw(hp.get(p + 1)))
    };
    // [1, {}]
    let (h0, t0) = cell(Term::from_raw(module.code[1]));
    assert_eq!(h0, Term::make_small_signed(1));
    let (h1, t1) = cell(t0);
    assert_eq!(Tuple::get_arity(hp, Tuple::from_term(hp, h1).unwrap()), 0);
    assert_eq!(t1, Term::nil());
    // [1 | 2]
    assert_eq!(
        cell(Term::from_raw(module.code[4])),
        (Term::make_small_signed(1), Term::make_small_signed(2))
    );
    // "hi"
    let (c0, rest) = cell(Term::from_raw(module.code[7]));
    assert_eq!(c0, Term::make_small_signed(104));
    assert_eq!(cell(rest), (Term::make_small_signed(105), Term::nil()));
    // -(2^64)
    let n = erlangrt::bignum::Bignum::const_from_term(hp, Term::from_raw(module.code[10])).unwrap();
    assert!(n.is_negative());
    assert_eq!(n.get_digits(), &[0u64, 1][..]);
    // a big integer in the small range, an empty string, an empty list
    let more = vec![literal_chunk(&[
        &[131, 110, 2, 1, 1, 1],
        &[131, 107, 0, 0],
        &[131, 108, 0, 0, 0, 0, 106],
        &[131, 110, 0, 1],
    ])];
    let small_ones = load_module(&mut srv, module_file(&["t"], &code, more)).unwrap();
    assert_eq!(small_ones.code[1], Term::make_small_signed(-257).raw());
    assert_eq!(small_ones.code[4], Term::nil().raw());
    assert_eq!(small_ones.code[7], Term::nil().raw());
    assert_eq!(small_ones.code[10], Term::make_small_signed(0).raw());
    assert_eq!(small_ones.lit_heap.allocated(), 0);
}

#[test]
fn faults_of_the_tables() {
    let code = vec![OPCODE_RETURN];
    let with = |extra: Vec<Chunk>| {
        let mut srv = CodeServer::new();
        load_module(&mut srv, module_file(&["t"], &code, extra)).unwrap_err()
    };
    assert_eq!(
        with(vec![chunk(b"ImpT", words(&[1, 1, 2, 0]))]),
        RtErr::MalformedModule(ModuleFault::BadAtomIndex)
    );
    assert_eq!(
        with(vec![chunk(b"ImpT", words(&[1, 0, 1, 0]))]),
        RtErr::MalformedModule(ModuleFault::BadAtomIndex)
    );
    assert_eq!(
        with(vec![chunk(b"FunT", words(&[1, 9, 0, 0, 0, 0, 0]))]),
        RtErr::MalformedModule(ModuleFault::BadAtomIndex)
    );
    assert_eq!(
        with(vec![literal_chunk(&[&[131, 70, 0, 0, 0, 0, 0, 0, 0, 0]])]),
        RtErr::MalformedModule(ModuleFault::BadLiterals)
    );
    assert_eq!(
        with(vec![literal_chunk(&[&[130, 106]])]),
        RtErr::MalformedModule(ModuleFault::BadLiterals)
    );
    assert_eq!(
        with(vec![literal_chunk(&[&[131, 104, 2, 106]])]),
        RtErr::MalformedModule(ModuleFault::ShortChunk)
    );
    assert_eq!(
        with(vec![literal_chunk(&[&[131, 105, 0, 0x20, 0, 0, 106]])]),
        RtErr::HeapOutOfMemory
    );
}
