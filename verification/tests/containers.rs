use erlangrt::beam_file::{
    parse_atom_names, parse_code, parse_frames, parse_literal_chunk, parse_table, BeamFile,
};
use erlangrt::container::{
    read_chunks, Chunk, CHUNK_ATOM, CHUNK_ATU8, CHUNK_CODE, CHUNK_EXPT, CHUNK_IMPT, CHUNK_LITT,
    CHUNK_STRT,
};
use erlangrt::container_write::write_container;
use erlangrt::fail::{ModuleFault, RtErr};

fn chunk(tag: &[u8; 4], payload: &[u8]) -> Chunk {
    Chunk { tag: u32::from_be_bytes(*tag), payload: payload.to_vec() }
}

fn pairs(chunks: &[Chunk]) -> Vec<(u32, Vec<u8>)> {
    chunks.iter().map(|c| (c.tag, c.payload.clone())).collect()
}

fn malformed(fault: ModuleFault) -> RtErr {
    RtErr::MalformedModule(fault)
}

#[test]
fn tags_are_their_four_bytes() {
    assert_eq!(CHUNK_ATOM, u32::from_be_bytes(*b"Atom"));
    assert_eq!(CHUNK_ATU8, u32::from_be_bytes(*b"AtU8"));
    assert_eq!(CHUNK_CODE, u32::from_be_bytes(*b"Code"));
    assert_eq!(CHUNK_IMPT, u32::from_be_bytes(*b"ImpT"));
    assert_eq!(CHUNK_EXPT, u32::from_be_bytes(*b"ExpT"));
    assert_eq!(CHUNK_LITT, u32::from_be_bytes(*b"LitT"));
    assert_eq!(CHUNK_STRT, u32::from_be_bytes(*b"StrT"));
}

#[test]
fn chunk_round_trip() {
    let chunks = vec![
        chunk(b"AtU8", &[0, 0, 0, 1, 1, b't']),
        chunk(b"Code", &[1, 2, 3, 4, 5]),
        chunk(b"Dbgi", &[9, 9, 9]),
        chunk(b"StrT", &[]),
        chunk(b"Line", &[7; 8]),
        chunk(b"LocT", &[0, 0, 0, 0]),
        chunk(b"Unkn", &[1]),
        chunk(b"ExpT", &[1, 2, 3]),
    ];
    let bytes = write_container(&chunks).unwrap();
    assert_eq!(&bytes[0..4], b"FOR1");
    assert_eq!(&bytes[8..12], b"BEAM");
    assert_eq!(u32::from_be_bytes([bytes[4], bytes[5], bytes[6], bytes[7]]) as usize, bytes.len() - 8);
    assert_eq!(bytes.len() % 4, 0);
    let read = read_chunks(bytes).unwrap();
    let kept: Vec<Chunk> = chunks
        .into_iter()
        .filter(|c| c.tag != u32::from_be_bytes(*b"Dbgi") && c.tag != u32::from_be_bytes(*b"Unkn"))
        .collect();
    assert_eq!(pairs(&read), pairs(&kept));
}

#[test]
fn bytes_behind_the_announced_size_are_ignored() {
    let mut bytes = write_container(&vec![chunk(b"Code", &[1, 2, 3])]).unwrap();
    bytes.extend_from_slice(&[0xaa; 7]);
    let read = read_chunks(bytes).unwrap();
    assert_eq!(pairs(&read), vec![(CHUNK_CODE, vec![1, 2, 3])]);
    assert_eq!(read_chunks(write_container(&vec![]).unwrap()).unwrap().len(), 0);
}

#[test]
fn broken_containers() {
    let good = write_container(&vec![chunk(b"Code", &[1, 2, 3, 4, 5])]).unwrap();
    assert_eq!(read_chunks(vec![]).unwrap_err(), malformed(ModuleFault::BadMagic));
    assert_eq!(read_chunks(b"FOR".to_vec()).unwrap_err(), malformed(ModuleFault::BadMagic));
    let mut magic = good.clone();
    magic[3] = b'2';
    assert_eq!(read_chunks(magic).unwrap_err(), malformed(ModuleFault::BadMagic));
    assert_eq!(read_chunks(b"FOR1\0\0".to_vec()).unwrap_err(), malformed(ModuleFault::ShortChunk));
    let mut form = good.clone();
    form[8] = b'b';
    assert_eq!(read_chunks(form).unwrap_err(), malformed(ModuleFault::BadFormType));
    let mut cut = good.clone();
    cut.truncate(good.len() - 1);
    assert_eq!(read_chunks(cut).unwrap_err(), malformed(ModuleFault::ShortChunk));
    let mut long = good.clone();
    long[19] = 200;
    assert_eq!(read_chunks(long).unwrap_err(), malformed(ModuleFault::ShortChunk));
    // the padding is part of the chunk
    let mut unpadded = good.clone();
    unpadded.truncate(good.len() - 3);
    unpadded[7] -= 3;
    assert_eq!(read_chunks(unpadded).unwrap_err(), malformed(ModuleFault::ShortChunk));
    let mut small = good.clone();
    small[7] = 3;
    assert_eq!(read_chunks(small).unwrap_err(), malformed(ModuleFault::ShortChunk));
}

#[test]
fn tables_are_parsed() {
    assert_eq!(
        parse_atom_names(&[0, 0, 0, 2, 1, b't', 2, b'o', b'k', 99]),
        Some(vec![b"t".to_vec(), b"ok".to_vec()])
    );
    assert_eq!(parse_atom_names(&[0, 0, 0, 2, 1, b't', 2, b'o']), None);
    assert_eq!(parse_atom_names(&[0, 0, 0]), None);
    assert_eq!(parse_atom_names(&[0, 0, 0, 0]), Some(vec![]));
    assert_eq!(
        parse_table(&[0, 0, 0, 2, 0, 0, 0, 1, 0, 0, 0, 2, 0, 0, 1, 0, 0, 0, 0, 4, 0, 0, 0, 5, 0, 0, 0, 6], 3),
        Some(vec![1, 2, 256, 4, 5, 6])
    );
    assert_eq!(parse_table(&[0, 0, 0, 1, 0, 0, 0, 1, 0, 0, 0, 2], 3), None);
    assert_eq!(parse_table(&[0xff, 0xff, 0xff, 0xff], 6), None);
    let mut code = vec![0, 0, 0, 16, 0, 0, 0, 0, 0, 0, 0, 159, 0, 0, 0, 3, 0, 0, 0, 1];
    code.extend_from_slice(&[19, 3]);
    let (header, bytes) = parse_code(&code).unwrap();
    assert_eq!(header.sub_size, 16);
    assert_eq!(header.opcode_max, 159);
    assert_eq!(header.label_count, 3);
    assert_eq!(header.fun_count, 1);
    assert_eq!(bytes, vec![19, 3]);
    assert!(parse_code(&code[..19]).is_none());
    code[3] = 15;
    assert!(parse_code(&code).is_none());
    assert_eq!(
        parse_frames(&[0, 0, 0, 2, 0, 0, 0, 1, 7, 0, 0, 0, 2, 8, 9]),
        Some(vec![vec![7], vec![8, 9]])
    );
    assert_eq!(parse_frames(&[0, 0, 0, 1, 0, 0, 0, 2, 8]), None);
}

fn literal_payload(plain: &[u8], announced: u32) -> Vec<u8> {
    let mut payload = announced.to_be_bytes().to_vec();
    payload.extend_from_slice(&miniz_oxide::deflate::compress_to_vec_zlib(plain, 6));
    payload
}

#[test]
fn literals_are_decompressed() {
    let plain = [0u8, 0, 0, 2, 0, 0, 0, 2, 131, 106, 0, 0, 0, 3, 131, 97, 5];
    assert_eq!(
        parse_literal_chunk(&literal_payload(&plain, plain.len() as u32)),
        Ok(vec![vec![131, 106], vec![131, 97, 5]])
    );
    // the announced size has to be the size
    assert_eq!(
        parse_literal_chunk(&literal_payload(&plain, plain.len() as u32 + 1)).unwrap_err(),
        malformed(ModuleFault::BadLiterals)
    );
    assert_eq!(
        parse_literal_chunk(&literal_payload(&plain, plain.len() as u32 - 1)).unwrap_err(),
        malformed(ModuleFault::BadLiterals)
    );
    // what is compressed has to be a zlib stream, and not the plain bytes
    let mut stored = (plain.len() as u32).to_be_bytes().to_vec();
    stored.extend_from_slice(&plain);
    assert_eq!(parse_literal_chunk(&stored).unwrap_err(), malformed(ModuleFault::BadLiterals));
    assert_eq!(parse_literal_chunk(&[0, 0]).unwrap_err(), malformed(ModuleFault::ShortChunk));
    let short = [0u8, 0, 0, 1, 0, 0, 0, 9, 1];
    assert_eq!(
        parse_literal_chunk(&literal_payload(&short, short.len() as u32)).unwrap_err(),
        malformed(ModuleFault::ShortChunk)
    );
}

fn code_payload(bytecode: &[u8]) -> Vec<u8> {
    let mut code = vec![0, 0, 0, 16, 0, 0, 0, 0, 0, 0, 0, 159, 0, 0, 0, 1, 0, 0, 0, 0];
    code.extend_from_slice(bytecode);
    code
}

#[test]
fn required_chunks() {
    let atoms = chunk(b"AtU8", &[0, 0, 0, 1, 1, b't']);
    let code = chunk(b"Code", &code_payload(&[3]));
    let imports = chunk(b"ImpT", &[0, 0, 0, 0]);
    let exports = chunk(b"ExpT", &[0, 0, 0, 0]);
    let all = || {
        vec![
            chunk(b"AtU8", &[0, 0, 0, 1, 1, b't']),
            chunk(b"Code", &code_payload(&[3])),
            chunk(b"ImpT", &[0, 0, 0, 0]),
            chunk(b"ExpT", &[0, 0, 0, 0]),
        ]
    };
    let file = BeamFile::parse(write_container(&all()).unwrap()).unwrap();
    assert_eq!(file.atoms, vec![b"t".to_vec()]);
    assert_eq!(file.code, vec![3]);
    assert_eq!(file.chunks.len(), 4);
    assert!(file.imports.is_empty() && file.locals.is_empty() && file.lambdas.is_empty());
    assert!(file.literals.is_empty());
    for missing in 0..4 {
        let mut chunks = all();
        chunks.remove(missing);
        assert_eq!(
            BeamFile::from_chunks(chunks).unwrap_err(),
            malformed(ModuleFault::MissingChunk)
        );
    }
    let mut twice = all();
    twice.push(chunk(b"Atom", &[0, 0, 0, 1, 1, b't']));
    assert_eq!(BeamFile::from_chunks(twice).unwrap_err(), malformed(ModuleFault::DuplicateAtomChunk));
    let latin = vec![chunk(b"Atom", &[0, 0, 0, 1, 1, b'u']), code, imports, exports];
    assert_eq!(BeamFile::from_chunks(latin).unwrap().atoms, vec![b"u".to_vec()]);
    let mut short = all();
    short[2] = chunk(b"ImpT", &[0, 0, 0, 1]);
    assert_eq!(BeamFile::from_chunks(short).unwrap_err(), malformed(ModuleFault::ShortChunk));
    let mut lits = all();
    lits.push(chunk(b"LitT", &[0, 0, 0, 9, 1, 2, 3]));
    assert_eq!(BeamFile::from_chunks(lits).unwrap_err(), malformed(ModuleFault::BadLiterals));
    assert_eq!(atoms.tag, CHUNK_ATU8);
}

#[test]
fn records_of_the_tables() {
    let chunks = vec![
        chunk(b"AtU8", &[0, 0, 0, 1, 1, b't']),
        chunk(b"Code", &code_payload(&[3])),
        chunk(b"ImpT", &[0, 0, 0, 1, 0, 0, 0, 1, 0, 0, 0, 2, 0, 0, 0, 3]),
        chunk(b"ExpT", &[0, 0, 0, 1, 0, 0, 0, 4, 0, 0, 0, 5, 0, 0, 0, 6]),
        chunk(b"LocT", &[0, 0, 0, 1, 0, 0, 0, 7, 0, 0, 0, 8, 0, 0, 0, 9]),
        chunk(
            b"FunT",
            &[0, 0, 0, 1, 0, 0, 0, 1, 0, 0, 0, 2, 0, 0, 0, 3, 0, 0, 0, 4, 0, 0, 0, 5, 0, 0, 0, 6],
        ),
    ];
    let file = BeamFile::from_chunks(chunks).unwrap();
    assert_eq!(file.import_count(), 1);
    let i = file.get_import(0);
    assert_eq!((i.mod_atom, i.fun_atom, i.arity), (1, 2, 3));
    assert_eq!(file.export_count(), 1);
    let e = file.get_export(0);
    assert_eq!((e.fun_atom, e.arity, e.label), (4, 5, 6));
    assert_eq!(file.local_count(), 1);
    assert_eq!(file.get_local(0).label, 9);
    assert_eq!(file.lambda_count(), 1);
    let l = file.get_lambda(0);
    assert_eq!((l.fun_atom, l.arity, l.label, l.index, l.n_free, l.old_uniq), (1, 2, 3, 4, 5, 6));
    assert_eq!(file.header.label_count, 1);
}
