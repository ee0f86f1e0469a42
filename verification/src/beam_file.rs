//! The tables of a module file: what its chunks hold, parsed.
//!
//! ```text
//! Atom, AtU8   count:u32  (length:u8 name)*
//! Code         sub_size:u32 iset_version:u32 opcode_max:u32 labels:u32 funs:u32 ... bytecode
//! ImpT         count:u32  (module:u32 function:u32 arity:u32)*
//! ExpT, LocT   count:u32  (function:u32 arity:u32 label:u32)*
//! FunT         count:u32  (function:u32 arity:u32 label:u32 index:u32 n_free:u32 old_uniq:u32)*
//! LitT         size:u32   zlib(count:u32 (length:u32 term)*)
//! ```
//!
//! The bytecode begins `sub_size` bytes behind the `sub_size` field.
use vstd::prelude::*;
use crate::container::{
    chunk_models, file_chunks, read_chunks, u32_at, Chunk, ChunkModel, CHUNK_ATOM, CHUNK_ATU8,
    CHUNK_CODE, CHUNK_EXPT, CHUNK_FUNT, CHUNK_IMPT, CHUNK_LITT, CHUNK_LOCT,
};
use crate::bin_reader::lemma_be_value_4;
use crate::fail::{Fault, ModuleFault, RtErr};

verus! {

/// The header of the code chunk.
#[derive(Clone, Copy, Debug, PartialEq, Eq, Structural)]
pub struct CodeHeader {
    pub sub_size: u32,
    pub iset_version: u32,
    pub opcode_max: u32,
    pub label_count: u32,
    pub fun_count: u32,
}

/// An entry of the import table, its atoms as indices into the atom table.
#[derive(Clone, Copy, Debug, PartialEq, Eq, Structural)]
pub struct ImportEntry {
    pub mod_atom: u32,
    pub fun_atom: u32,
    pub arity: u32,
}

/// An entry of the export table or of the table of local functions.
#[derive(Clone, Copy, Debug, PartialEq, Eq, Structural)]
pub struct ExportEntry {
    pub fun_atom: u32,
    pub arity: u32,
    pub label: u32,
}

/// An entry of the lambda table.
#[derive(Clone, Copy, Debug, PartialEq, Eq, Structural)]
pub struct LambdaEntry {
    pub fun_atom: u32,
    pub arity: u32,
    pub label: u32,
    pub index: u32,
    pub n_free: u32,
    pub old_uniq: u32,
}

/// What zlib decompression makes of `compressed`, where the result takes
/// `limit` bytes at most; `None` where the bytes are no zlib stream, or
/// decompress to more.
pub uninterp spec fn zlib_inflated(compressed: Seq<u8>, limit: usize) -> Option<Seq<u8>>;

/// `miniz_oxide::inflate::DecompressError`: what a decompression that fails
/// returns.  Nothing is read out of it.
#[verifier::external_type_specification]
#[verifier::external_body]
pub struct ExDecompressError(miniz_oxide::inflate::DecompressError);

/// `miniz_oxide::inflate::decompress_to_vec_zlib_with_limit`: decompresses
/// a zlib stream into a vector that is never grown beyond `limit` bytes.
/// The contract names the result, and claims of it only that a successful
/// result is no longer than the limit.
#[verifier::external_body]
fn inflate_zlib(compressed: &[u8], limit: usize) -> (r: Result<
    Vec<u8>,
    miniz_oxide::inflate::DecompressError,
>)
    ensures
        r matches Ok(v) ==> zlib_inflated(compressed@, limit) == Some(v@) && v@.len() <= limit,
        r is Err ==> zlib_inflated(compressed@, limit) is None,
{
    miniz_oxide::inflate::decompress_to_vec_zlib_with_limit(compressed, limit)
}

/// The payload of the first chunk with this tag.
pub open spec fn chunk_payload(chunks: Seq<ChunkModel>, tag: u32) -> Option<Seq<u8>>
    decreases chunks.len(),
{
    if chunks.len() == 0 {
        None
    } else if chunks[0].tag == tag {
        Some(chunks[0].payload)
    } else {
        chunk_payload(chunks.drop_first(), tag)
    }
}

/// The number of chunks with this tag.
pub open spec fn chunk_count(chunks: Seq<ChunkModel>, tag: u32) -> nat
    decreases chunks.len(),
{
    if chunks.len() == 0 {
        0
    } else if chunks[0].tag == tag {
        1 + chunk_count(chunks.drop_first(), tag)
    } else {
        chunk_count(chunks.drop_first(), tag)
    }
}

/// The numbers of a table of `count` records of `width` numbers each, one
/// behind the other; `None` where the payload is too short for them.
pub open spec fn table_words(payload: Seq<u8>, width: int) -> Option<Seq<u32>> {
    if payload.len() < 4 || 4 + 4 * (u32_at(payload, 0) * width) > payload.len() {
        None
    } else {
        Some(Seq::new((u32_at(payload, 0) * width) as nat, |i: int| u32_at(payload, 4 + 4 * i) as u32))
    }
}

/// The names of an atom chunk from `pos` on, `n` of them.
pub open spec fn names_from(payload: Seq<u8>, pos: int, n: nat) -> Option<Seq<Seq<u8>>>
    decreases n,
{
    if n == 0 {
        Some(Seq::<Seq<u8>>::empty())
    } else if pos < 0 || pos >= payload.len() || pos + 1 + payload[pos] > payload.len() {
        None
    } else {
        match names_from(payload, pos + 1 + payload[pos], (n - 1) as nat) {
            None => None,
            Some(rest) => Some(seq![payload.subrange(pos + 1, pos + 1 + payload[pos])] + rest),
        }
    }
}

/// The names of an atom chunk.
pub open spec fn atom_names(payload: Seq<u8>) -> Option<Seq<Seq<u8>>> {
    if payload.len() < 4 {
        None
    } else {
        names_from(payload, 4, u32_at(payload, 0) as nat)
    }
}

/// The terms of a literal table from `pos` on, `n` of them, each as the
/// bytes that encode it.
pub open spec fn frames_from(bytes: Seq<u8>, pos: int, n: nat) -> Option<Seq<Seq<u8>>>
    decreases n,
{
    if n == 0 {
        Some(Seq::<Seq<u8>>::empty())
    } else if pos < 0 || pos + 4 > bytes.len() || pos + 4 + u32_at(bytes, pos) > bytes.len() {
        None
    } else {
        match frames_from(bytes, pos + 4 + u32_at(bytes, pos), (n - 1) as nat) {
            None => None,
            Some(rest) => Some(seq![bytes.subrange(pos + 4, pos + 4 + u32_at(bytes, pos))] + rest),
        }
    }
}

/// The terms of a decompressed literal table.
pub open spec fn literal_frames(bytes: Seq<u8>) -> Option<Seq<Seq<u8>>> {
    if bytes.len() < 4 {
        None
    } else {
        frames_from(bytes, 4, u32_at(bytes, 0) as nat)
    }
}

/// The terms of a literal table, given what decompression made of it and
/// the size that the chunk announces: the two have to agree.
pub open spec fn frames_given(plain: Option<Seq<u8>>, size: int) -> Result<
    Seq<Seq<u8>>,
    ModuleFault,
> {
    match plain {
        None => Err(ModuleFault::BadLiterals),
        Some(plain) => if plain.len() != size {
            Err(ModuleFault::BadLiterals)
        } else {
            match literal_frames(plain) {
                None => Err(ModuleFault::ShortChunk),
                Some(frames) => Ok(frames),
            }
        },
    }
}

/// The terms of a literal chunk: the payload announces a size, and what
/// follows decompresses to exactly that many bytes.
pub open spec fn literal_chunk(payload: Seq<u8>) -> Result<Seq<Seq<u8>>, ModuleFault> {
    if payload.len() < 4 {
        Err(ModuleFault::ShortChunk)
    } else {
        frames_given(
            zlib_inflated(payload.subrange(4, payload.len() as int), u32_at(payload, 0) as usize),
            u32_at(payload, 0),
        )
    }
}

/// The header of a code chunk; `None` where the payload is too short for
/// the header that it announces.
pub open spec fn code_header(payload: Seq<u8>) -> Option<CodeHeader> {
    if payload.len() < 20 || u32_at(payload, 0) < 16 || 4 + u32_at(payload, 0) > payload.len() {
        None
    } else {
        Some(
            CodeHeader {
                sub_size: u32_at(payload, 0) as u32,
                iset_version: u32_at(payload, 4) as u32,
                opcode_max: u32_at(payload, 8) as u32,
                label_count: u32_at(payload, 12) as u32,
                fun_count: u32_at(payload, 16) as u32,
            },
        )
    }
}

/// The bytecode of a code chunk.
pub open spec fn code_bytes(payload: Seq<u8>) -> Seq<u8> {
    payload.subrange(4 + u32_at(payload, 0), payload.len() as int)
}

/// Record `i` of an import table.
pub open spec fn import_at(words: Seq<u32>, i: int) -> ImportEntry {
    ImportEntry { mod_atom: words[3 * i], fun_atom: words[3 * i + 1], arity: words[3 * i + 2] }
}

/// Record `i` of an export table.
pub open spec fn export_at(words: Seq<u32>, i: int) -> ExportEntry {
    ExportEntry { fun_atom: words[3 * i], arity: words[3 * i + 1], label: words[3 * i + 2] }
}

/// Record `i` of a lambda table.
pub open spec fn lambda_at(words: Seq<u32>, i: int) -> LambdaEntry {
    LambdaEntry {
        fun_atom: words[6 * i],
        arity: words[6 * i + 1],
        label: words[6 * i + 2],
        index: words[6 * i + 3],
        n_free: words[6 * i + 4],
        old_uniq: words[6 * i + 5],
    }
}

/// The byte strings of vectors.
pub open spec fn strings_of(v: Seq<Vec<u8>>) -> Seq<Seq<u8>> {
    Seq::new(v.len(), |i: int| v[i]@)
}

/// The number in the four bytes at `pos`.
pub fn u32_be_at(bytes: &[u8], pos: usize) -> (v: u32)
    requires
        pos + 4 <= bytes@.len(),
    ensures
        v == u32_at(bytes@, pos as int),
{
    let b0: u32 = bytes[pos] as u32;
    let b1: u32 = bytes[pos + 1] as u32;
    let b2: u32 = bytes[pos + 2] as u32;
    let b3: u32 = bytes[pos + 3] as u32;
    proof {
        lemma_be_value_4(bytes@.subrange(pos as int, pos + 4));
    }
    ((b0 * 256 + b1) * 256 + b2) * 256 + b3
}

/// A copy of the bytes from `from` to `to`.
pub fn copy_range(bytes: &[u8], from: usize, to: usize) -> (v: Vec<u8>)
    requires
        from <= to <= bytes@.len(),
    ensures
        v@ == bytes@.subrange(from as int, to as int),
{
    let mut out: Vec<u8> = Vec::new();
    let mut i: usize = from;
    while i < to
        invariant
            from <= i <= to <= bytes@.len(),
            out@ == bytes@.subrange(from as int, i as int),
        decreases to - i,
    {
        out.push(bytes[i]);
        i += 1;
        assert(out@ =~= bytes@.subrange(from as int, i as int));
    }
    out
}

/// Reads a table of records of `width` numbers each.
pub fn parse_table(payload: &[u8], width: usize) -> (r: Option<Vec<u32>>)
    requires
        1 <= width <= 6,
    ensures
        match table_words(payload@, width as int) {
            Some(words) => r matches Some(v) && v@ == words,
            None => r.is_none(),
        },
{
    let len: usize = payload.len();
    if len < 4 {
        return None;
    }
    let count: u32 = u32_be_at(payload, 0);
    assert(count * width <= 0xffff_ffff * 6) by (nonlinear_arith)
        requires
            count <= 0xffff_ffff,
            width <= 6,
    ;
    let total: u64 = count as u64 * width as u64;
    if total > (len as u64 - 4) / 4 {
        return None;
    }
    let n: usize = total as usize;
    let mut out: Vec<u32> = Vec::new();
    let mut i: usize = 0;
    while i < n
        invariant
            i <= n,
            4 + 4 * n <= len == payload@.len(),
            out@.len() == i,
            forall|k: int| 0 <= k < i ==> out@[k] as int == u32_at(payload@, 4 + 4 * k),
        decreases n - i,
    {
        out.push(u32_be_at(payload, 4 + 4 * i));
        i += 1;
    }
    assert(out@ =~= table_words(payload@, width as int)->Some_0);
    Some(out)
}

/// Reads the names of an atom chunk.
pub fn parse_atom_names(payload: &[u8]) -> (r: Option<Vec<Vec<u8>>>)
    ensures
        match atom_names(payload@) {
            Some(names) => r matches Some(v) && strings_of(v@) == names,
            None => r.is_none(),
        },
{
    let len: usize = payload.len();
    if len < 4 {
        return None;
    }
    let count: u32 = u32_be_at(payload, 0);
    let mut out: Vec<Vec<u8>> = Vec::new();
    let mut pos: usize = 4;
    let mut i: u32 = 0;
    assert(strings_of(out@) =~= Seq::<Seq<u8>>::empty());
    while i < count
        invariant
            i <= count,
            len == payload@.len(),
            4 <= pos <= len,
            count == u32_at(payload@, 0),
            names_from(payload@, pos as int, (count - i) as nat) matches Some(rest) ==> atom_names(
                payload@,
            ) == Some(strings_of(out@) + rest),
            names_from(payload@, pos as int, (count - i) as nat) is None ==> atom_names(payload@)
                is None,
        decreases count - i,
    {
        if pos >= len {
            return None;
        }
        let size: usize = payload[pos] as usize;
        if size > len - pos - 1 {
            return None;
        }
        let name = copy_range(payload, pos + 1, pos + 1 + size);
        let ghost before = strings_of(out@);
        let ghost added = name@;
        out.push(name);
        pos = pos + 1 + size;
        i += 1;
        proof {
            assert(strings_of(out@) =~= before + seq![added]);
            if names_from(payload@, pos as int, (count - i) as nat) is Some {
                let rest = names_from(payload@, pos as int, (count - i) as nat)->Some_0;
                assert(before + (seq![added] + rest) =~= before + seq![added] + rest);
            }
        }
    }
    proof {
        assert(strings_of(out@) + Seq::<Seq<u8>>::empty() =~= strings_of(out@));
    }
    Some(out)
}

/// Reads the terms of a decompressed literal table, each as its bytes.
pub fn parse_frames(bytes: &[u8]) -> (r: Option<Vec<Vec<u8>>>)
    ensures
        match literal_frames(bytes@) {
            Some(frames) => r matches Some(v) && strings_of(v@) == frames,
            None => r.is_none(),
        },
{
    let len: usize = bytes.len();
    if len < 4 {
        return None;
    }
    let count: u32 = u32_be_at(bytes, 0);
    let mut out: Vec<Vec<u8>> = Vec::new();
    let mut pos: usize = 4;
    let mut i: u32 = 0;
    assert(strings_of(out@) =~= Seq::<Seq<u8>>::empty());
    while i < count
        invariant
            i <= count,
            len == bytes@.len(),
            4 <= pos <= len,
            count == u32_at(bytes@, 0),
            frames_from(bytes@, pos as int, (count - i) as nat) matches Some(rest)
                ==> literal_frames(bytes@) == Some(strings_of(out@) + rest),
            frames_from(bytes@, pos as int, (count - i) as nat) is None ==> literal_frames(bytes@)
                is None,
        decreases count - i,
    {
        if len - pos < 4 {
            return None;
        }
        let size: u32 = u32_be_at(bytes, pos);
        if size as u64 > (len - pos - 4) as u64 {
            return None;
        }
        let frame = copy_range(bytes, pos + 4, pos + 4 + size as usize);
        let ghost before = strings_of(out@);
        let ghost added = frame@;
        out.push(frame);
        pos = pos + 4 + size as usize;
        i += 1;
        proof {
            assert(strings_of(out@) =~= before + seq![added]);
            if frames_from(bytes@, pos as int, (count - i) as nat) is Some {
                let rest = frames_from(bytes@, pos as int, (count - i) as nat)->Some_0;
                assert(before + (seq![added] + rest) =~= before + seq![added] + rest);
            }
        }
    }
    proof {
        assert(strings_of(out@) + Seq::<Seq<u8>>::empty() =~= strings_of(out@));
    }
    Some(out)
}

/// The terms of a literal table, given what decompression returned and the
/// size that the chunk announces.
pub fn frames_of_inflated(
    inflated: Result<Vec<u8>, miniz_oxide::inflate::DecompressError>,
    size: u32,
) -> (r: Result<Vec<Vec<u8>>, RtErr>)
    ensures
        match frames_given(
            match inflated {
                Ok(plain) => Some(plain@),
                Err(e) => None,
            },
            size as int,
        ) {
            Ok(frames) => r matches Ok(v) && strings_of(v@) == frames,
            Err(fault) => r matches Err(e) && e@ == Fault::MalformedModule(fault),
        },
{
    match inflated {
        Ok(plain) => {
            if plain.len() as u64 != size as u64 {
                return Err(RtErr::MalformedModule(ModuleFault::BadLiterals));
            }
            match parse_frames(plain.as_slice()) {
                Some(frames) => Ok(frames),
                None => Err(RtErr::MalformedModule(ModuleFault::ShortChunk)),
            }
        },
        Err(e) => Err(RtErr::MalformedModule(ModuleFault::BadLiterals)),
    }
}

/// Reads the terms of a literal chunk, each as its bytes.
pub fn parse_literal_chunk(payload: &[u8]) -> (r: Result<Vec<Vec<u8>>, RtErr>)
    ensures
        match literal_chunk(payload@) {
            Ok(frames) => r matches Ok(v) && strings_of(v@) == frames,
            Err(fault) => r matches Err(e) && e@ == Fault::MalformedModule(fault),
        },
{
    let len: usize = payload.len();
    if len < 4 {
        return Err(RtErr::MalformedModule(ModuleFault::ShortChunk));
    }
    let size: u32 = u32_be_at(payload, 0);
    let compressed = copy_range(payload, 4, len);
    frames_of_inflated(inflate_zlib(compressed.as_slice(), size as usize), size)
}

/// Reads the header of a code chunk and copies the bytecode.
pub fn parse_code(payload: &[u8]) -> (r: Option<(CodeHeader, Vec<u8>)>)
    ensures
        match code_header(payload@) {
            Some(header) => r matches Some(pair) && pair.0 == header && pair.1@ == code_bytes(
                payload@,
            ),
            None => r.is_none(),
        },
{
    let len: usize = payload.len();
    if len < 20 {
        return None;
    }
    let sub_size: u32 = u32_be_at(payload, 0);
    if sub_size < 16 || sub_size as u64 > (len - 4) as u64 {
        return None;
    }
    let header = CodeHeader {
        sub_size,
        iset_version: u32_be_at(payload, 4),
        opcode_max: u32_be_at(payload, 8),
        label_count: u32_be_at(payload, 12),
        fun_count: u32_be_at(payload, 16),
    };
    Some((header, copy_range(payload, 4 + sub_size as usize, len)))
}

/// The tables of a module file.
pub struct Tables {
    pub atoms: Seq<Seq<u8>>,
    pub header: CodeHeader,
    pub code: Seq<u8>,
    /// The import table, three numbers to a record.
    pub imports: Seq<u32>,
    /// The export table, three numbers to a record.
    pub exports: Seq<u32>,
    /// The table of local functions, three numbers to a record.
    pub locals: Seq<u32>,
    /// The lambda table, six numbers to a record.
    pub lambdas: Seq<u32>,
    /// The literals, each as the bytes that encode it.
    pub literals: Seq<Seq<u8>>,
}

/// The payload of the one atom chunk.
pub open spec fn atom_payload(chunks: Seq<ChunkModel>) -> Option<Seq<u8>> {
    if chunk_payload(chunks, CHUNK_ATU8) is Some {
        chunk_payload(chunks, CHUNK_ATU8)
    } else {
        chunk_payload(chunks, CHUNK_ATOM)
    }
}

/// A table that may be absent: an absent table is empty.
pub open spec fn optional_table(chunks: Seq<ChunkModel>, tag: u32, width: int) -> Option<Seq<u32>> {
    match chunk_payload(chunks, tag) {
        None => Some(Seq::<u32>::empty()),
        Some(payload) => table_words(payload, width),
    }
}

/// The literals of a file; a file without a literal chunk has none.
pub open spec fn optional_literals(chunks: Seq<ChunkModel>) -> Result<Seq<Seq<u8>>, ModuleFault> {
    match chunk_payload(chunks, CHUNK_LITT) {
        None => Ok(Seq::<Seq<u8>>::empty()),
        Some(payload) => literal_chunk(payload),
    }
}

/// Whether the chunks that every module has are there.
pub open spec fn required_present(chunks: Seq<ChunkModel>) -> bool {
    &&& chunk_count(chunks, CHUNK_ATOM) + chunk_count(chunks, CHUNK_ATU8) >= 1
    &&& chunk_payload(chunks, CHUNK_CODE) is Some
    &&& chunk_payload(chunks, CHUNK_IMPT) is Some
    &&& chunk_payload(chunks, CHUNK_EXPT) is Some
}

/// Whether every table is as long as it says.
pub open spec fn tables_complete(chunks: Seq<ChunkModel>) -> bool {
    &&& atom_payload(chunks) is Some
    &&& atom_names(atom_payload(chunks)->Some_0) is Some
    &&& code_header(chunk_payload(chunks, CHUNK_CODE)->Some_0) is Some
    &&& table_words(chunk_payload(chunks, CHUNK_IMPT)->Some_0, 3) is Some
    &&& table_words(chunk_payload(chunks, CHUNK_EXPT)->Some_0, 3) is Some
    &&& optional_table(chunks, CHUNK_LOCT, 3) is Some
    &&& optional_table(chunks, CHUNK_FUNT, 6) is Some
}

/// The tables of a file with these chunks, or the rule that the file
/// breaks.  The atom table, the code, the imports and the exports are
/// required, the atom table in exactly one chunk.
pub open spec fn tables_of(chunks: Seq<ChunkModel>) -> Result<Tables, ModuleFault> {
    if !required_present(chunks) {
        Err(ModuleFault::MissingChunk)
    } else if chunk_count(chunks, CHUNK_ATOM) + chunk_count(chunks, CHUNK_ATU8) > 1 {
        Err(ModuleFault::DuplicateAtomChunk)
    } else if !tables_complete(chunks) {
        Err(ModuleFault::ShortChunk)
    } else {
        match optional_literals(chunks) {
            Err(fault) => Err(fault),
            Ok(literals) => Ok(
                Tables {
                    atoms: atom_names(atom_payload(chunks)->Some_0)->Some_0,
                    header: code_header(chunk_payload(chunks, CHUNK_CODE)->Some_0)->Some_0,
                    code: code_bytes(chunk_payload(chunks, CHUNK_CODE)->Some_0),
                    imports: table_words(chunk_payload(chunks, CHUNK_IMPT)->Some_0, 3)->Some_0,
                    exports: table_words(chunk_payload(chunks, CHUNK_EXPT)->Some_0, 3)->Some_0,
                    locals: optional_table(chunks, CHUNK_LOCT, 3)->Some_0,
                    lambdas: optional_table(chunks, CHUNK_FUNT, 6)->Some_0,
                    literals,
                },
            ),
        }
    }
}

/// The tables of a module file, or the rule that the file breaks.
pub open spec fn file_tables(bytes: Seq<u8>) -> Result<Tables, ModuleFault> {
    match file_chunks(bytes) {
        Err(fault) => Err(fault),
        Ok(chunks) => tables_of(chunks),
    }
}

/// The index of the first chunk with this tag.
pub fn find_chunk(chunks: &Vec<Chunk>, tag: u32) -> (r: Option<usize>)
    ensures
        match chunk_payload(chunk_models(chunks@), tag) {
            Some(payload) => r matches Some(i) && i < chunks@.len() && chunks@[i as int].payload@
                == payload,
            None => r.is_none(),
        },
{
    let ghost models = chunk_models(chunks@);
    let mut i: usize = 0;
    assert(models.subrange(0, models.len() as int) =~= models);
    while i < chunks.len()
        invariant
            i <= chunks@.len(),
            models == chunk_models(chunks@),
            chunk_payload(models.subrange(i as int, models.len() as int), tag) == chunk_payload(
                models,
                tag,
            ),
        decreases chunks@.len() - i,
    {
        let ghost tail = models.subrange(i as int, models.len() as int);
        assert(tail[0] == models[i as int]);
        assert(tail.drop_first() =~= models.subrange(i + 1, models.len() as int));
        if chunks[i].tag == tag {
            return Some(i);
        }
        i += 1;
    }
    None
}

/// The number of chunks with this tag.
pub fn count_chunks(chunks: &Vec<Chunk>, tag: u32) -> (n: usize)
    ensures
        n == chunk_count(chunk_models(chunks@), tag),
{
    let ghost models = chunk_models(chunks@);
    let mut n: usize = 0;
    let mut i: usize = 0;
    assert(models.subrange(0, models.len() as int) =~= models);
    while i < chunks.len()
        invariant
            i <= chunks@.len(),
            n <= i,
            models == chunk_models(chunks@),
            n + chunk_count(models.subrange(i as int, models.len() as int), tag) == chunk_count(
                models,
                tag,
            ),
        decreases chunks@.len() - i,
    {
        let ghost tail = models.subrange(i as int, models.len() as int);
        assert(tail[0] == models[i as int]);
        assert(tail.drop_first() =~= models.subrange(i + 1, models.len() as int));
        if chunks[i].tag == tag {
            n += 1;
        }
        i += 1;
    }
    n
}

/// A module file, read: its recognised chunks, and the tables in them.
#[derive(Debug)]
pub struct BeamFile {
    /// The recognised chunks, each with its payload byte for byte.
    pub chunks: Vec<Chunk>,
    pub atoms: Vec<Vec<u8>>,
    pub header: CodeHeader,
    /// The bytecode.
    pub code: Vec<u8>,
    pub imports: Vec<u32>,
    pub exports: Vec<u32>,
    pub locals: Vec<u32>,
    pub lambdas: Vec<u32>,
    pub literals: Vec<Vec<u8>>,
}

impl BeamFile {
    /// The tables that the file holds.
    pub open spec fn tables(&self) -> Tables {
        Tables {
            atoms: strings_of(self.atoms@),
            header: self.header,
            code: self.code@,
            imports: self.imports@,
            exports: self.exports@,
            locals: self.locals@,
            lambdas: self.lambdas@,
            literals: strings_of(self.literals@),
        }
    }

    /// The number of imports.
    pub fn import_count(&self) -> (n: usize)
        ensures
            n == self.imports@.len() / 3,
    {
        self.imports.len() / 3
    }

    /// Import `i`.
    pub fn get_import(&self, i: usize) -> (e: ImportEntry)
        requires
            i < self.imports@.len() / 3,
        ensures
            e == import_at(self.imports@, i as int),
    {
        let len: usize = self.imports.len();
        ImportEntry {
            mod_atom: self.imports[3 * i],
            fun_atom: self.imports[3 * i + 1],
            arity: self.imports[3 * i + 2],
        }
    }

    /// The number of exports.
    pub fn export_count(&self) -> (n: usize)
        ensures
            n == self.exports@.len() / 3,
    {
        self.exports.len() / 3
    }

    /// Export `i`.
    pub fn get_export(&self, i: usize) -> (e: ExportEntry)
        requires
            i < self.exports@.len() / 3,
        ensures
            e == export_at(self.exports@, i as int),
    {
        let len: usize = self.exports.len();
        ExportEntry {
            fun_atom: self.exports[3 * i],
            arity: self.exports[3 * i + 1],
            label: self.exports[3 * i + 2],
        }
    }

    /// The number of local functions.
    pub fn local_count(&self) -> (n: usize)
        ensures
            n == self.locals@.len() / 3,
    {
        self.locals.len() / 3
    }

    /// Local function `i`.
    pub fn get_local(&self, i: usize) -> (e: ExportEntry)
        requires
            i < self.locals@.len() / 3,
        ensures
            e == export_at(self.locals@, i as int),
    {
        let len: usize = self.locals.len();
        ExportEntry {
            fun_atom: self.locals[3 * i],
            arity: self.locals[3 * i + 1],
            label: self.locals[3 * i + 2],
        }
    }

    /// The number of lambdas.
    pub fn lambda_count(&self) -> (n: usize)
        ensures
            n == self.lambdas@.len() / 6,
    {
        self.lambdas.len() / 6
    }

    /// Lambda `i`.
    pub fn get_lambda(&self, i: usize) -> (e: LambdaEntry)
        requires
            i < self.lambdas@.len() / 6,
        ensures
            e == lambda_at(self.lambdas@, i as int),
    {
        let len: usize = self.lambdas.len();
        LambdaEntry {
            fun_atom: self.lambdas[6 * i],
            arity: self.lambdas[6 * i + 1],
            label: self.lambdas[6 * i + 2],
            index: self.lambdas[6 * i + 3],
            n_free: self.lambdas[6 * i + 4],
            old_uniq: self.lambdas[6 * i + 5],
        }
    }

    /// Reads the tables out of chunks.
    pub fn from_chunks(chunks: Vec<Chunk>) -> (r: Result<BeamFile, RtErr>)
        ensures
            match tables_of(chunk_models(chunks@)) {
                Ok(tables) => {
                    &&& r matches Ok(file)
                    &&& file.tables() == tables
                    &&& file.chunks@ == chunks@
                },
                Err(fault) => {
                    &&& r matches Err(e)
                    &&& e@ == Fault::MalformedModule(fault)
                },
            },
    {
        let atom_chunks: usize = count_chunks(&chunks, CHUNK_ATOM);
        let atu8_chunks: usize = count_chunks(&chunks, CHUNK_ATU8);
        let code_at = find_chunk(&chunks, CHUNK_CODE);
        let imports_at = find_chunk(&chunks, CHUNK_IMPT);
        let exports_at = find_chunk(&chunks, CHUNK_EXPT);
        if (atom_chunks == 0 && atu8_chunks == 0) || code_at.is_none() || imports_at.is_none()
            || exports_at.is_none() {
            return Err(RtErr::MalformedModule(ModuleFault::MissingChunk));
        }
        if atom_chunks > 1 || atu8_chunks > 1 || (atom_chunks == 1 && atu8_chunks == 1) {
            return Err(RtErr::MalformedModule(ModuleFault::DuplicateAtomChunk));
        }
        proof {
            lemma_counted_is_found(chunk_models(chunks@), CHUNK_ATOM);
            lemma_counted_is_found(chunk_models(chunks@), CHUNK_ATU8);
        }
        let atoms_at = if atu8_chunks == 1 {
            find_chunk(&chunks, CHUNK_ATU8)
        } else {
            find_chunk(&chunks, CHUNK_ATOM)
        };
        let atoms = match atoms_at {
            Some(i) => match parse_atom_names(chunks[i].payload.as_slice()) {
                Some(v) => v,
                None => {
                    return Err(RtErr::MalformedModule(ModuleFault::ShortChunk));
                },
            },
            None => {
                return Err(RtErr::MalformedModule(ModuleFault::ShortChunk));
            },
        };
        let (header, code) = match parse_code(chunks[code_at.unwrap()].payload.as_slice()) {
            Some(pair) => pair,
            None => {
                return Err(RtErr::MalformedModule(ModuleFault::ShortChunk));
            },
        };
        let imports = match parse_table(chunks[imports_at.unwrap()].payload.as_slice(), 3) {
            Some(v) => v,
            None => {
                return Err(RtErr::MalformedModule(ModuleFault::ShortChunk));
            },
        };
        let exports = match parse_table(chunks[exports_at.unwrap()].payload.as_slice(), 3) {
            Some(v) => v,
            None => {
                return Err(RtErr::MalformedModule(ModuleFault::ShortChunk));
            },
        };
        let locals = match find_chunk(&chunks, CHUNK_LOCT) {
            Some(i) => match parse_table(chunks[i].payload.as_slice(), 3) {
                Some(v) => v,
                None => {
                    return Err(RtErr::MalformedModule(ModuleFault::ShortChunk));
                },
            },
            None => Vec::new(),
        };
        let lambdas = match find_chunk(&chunks, CHUNK_FUNT) {
            Some(i) => match parse_table(chunks[i].payload.as_slice(), 6) {
                Some(v) => v,
                None => {
                    return Err(RtErr::MalformedModule(ModuleFault::ShortChunk));
                },
            },
            None => Vec::new(),
        };
        let literals = match find_chunk(&chunks, CHUNK_LITT) {
            Some(i) => match parse_literal_chunk(chunks[i].payload.as_slice()) {
                Ok(v) => v,
                Err(e) => {
                    return Err(e);
                },
            },
            None => {
                let none: Vec<Vec<u8>> = Vec::new();
                assert(strings_of(none@) =~= Seq::<Seq<u8>>::empty());
                none
            },
        };
        Ok(BeamFile { chunks, atoms, header, code, imports, exports, locals, lambdas, literals })
    }

    /// Reads a module file.
    pub fn parse(bytes: Vec<u8>) -> (r: Result<BeamFile, RtErr>)
        ensures
            match file_tables(bytes@) {
                Ok(tables) => {
                    &&& r matches Ok(file)
                    &&& file.tables() == tables
                    &&& file_chunks(bytes@) == Ok::<Seq<ChunkModel>, ModuleFault>(
                        chunk_models(file.chunks@),
                    )
                },
                Err(fault) => {
                    &&& r matches Err(e)
                    &&& e@ == Fault::MalformedModule(fault)
                },
            },
    {
        match read_chunks(bytes) {
            Ok(chunks) => Self::from_chunks(chunks),
            Err(e) => Err(e),
        }
    }
}

/// A tag that is counted is found, and one that is found is counted.
pub proof fn lemma_counted_is_found(chunks: Seq<ChunkModel>, tag: u32)
    ensures
        chunk_count(chunks, tag) >= 1 <==> chunk_payload(chunks, tag) is Some,
    decreases chunks.len(),
{
    if chunks.len() > 0 {
        lemma_counted_is_found(chunks.drop_first(), tag);
    }
}

} // verus!
