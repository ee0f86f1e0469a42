//! The container of a module file: a magic word, the size of what follows,
//! a form type, and then chunks.
//!
//! ```text
//! "FOR1"  size:u32  "BEAM"  chunk*
//! chunk = tag:4 bytes  size:u32  payload:size bytes  padding to a multiple of 4
//! ```
//!
//! All numbers are big-endian.  A tag is kept as the number that its four
//! bytes stand for.
use vstd::prelude::*;
use crate::bin_reader::{be_value, BinaryReader};
use crate::fail::{Fault, ModuleFault, RtErr};

verus! {

/// `FOR1`
pub const MAGIC_FOR1: u32 = 0x464f_5231;

/// `BEAM`
pub const FORM_BEAM: u32 = 0x4245_414d;

/// `Atom`
pub const CHUNK_ATOM: u32 = 0x4174_6f6d;

/// `AtU8`
pub const CHUNK_ATU8: u32 = 0x4174_5538;

/// `Code`
pub const CHUNK_CODE: u32 = 0x436f_6465;

/// `StrT`
pub const CHUNK_STRT: u32 = 0x5374_7254;

/// `ImpT`
pub const CHUNK_IMPT: u32 = 0x496d_7054;

/// `ExpT`
pub const CHUNK_EXPT: u32 = 0x4578_7054;

/// `LocT`
pub const CHUNK_LOCT: u32 = 0x4c6f_6354;

/// `FunT`
pub const CHUNK_FUNT: u32 = 0x4675_6e54;

/// `LitT`
pub const CHUNK_LITT: u32 = 0x4c69_7454;

/// `LabT`
pub const CHUNK_LABT: u32 = 0x4c61_6254;

/// `Line`
pub const CHUNK_LINE: u32 = 0x4c69_6e65;

/// The model of a chunk: its tag and its payload.
pub struct ChunkModel {
    pub tag: u32,
    pub payload: Seq<u8>,
}

/// A chunk: its tag and a copy of its payload.
#[derive(Debug)]
pub struct Chunk {
    pub tag: u32,
    pub payload: Vec<u8>,
}

impl View for Chunk {
    type V = ChunkModel;

    open spec fn view(&self) -> ChunkModel {
        ChunkModel { tag: self.tag, payload: self.payload@ }
    }
}

/// The models of chunks.
pub open spec fn chunk_models(chunks: Seq<Chunk>) -> Seq<ChunkModel> {
    Seq::new(chunks.len(), |i: int| chunks[i]@)
}

/// Whether the loader knows the tag.  A chunk with another tag is skipped.
pub open spec fn recognised(tag: u32) -> bool {
    tag == CHUNK_ATOM || tag == CHUNK_ATU8 || tag == CHUNK_CODE || tag == CHUNK_STRT || tag
        == CHUNK_IMPT || tag == CHUNK_EXPT || tag == CHUNK_LOCT || tag == CHUNK_FUNT || tag
        == CHUNK_LITT || tag == CHUNK_LABT || tag == CHUNK_LINE
}

/// The number in the four bytes at `pos`.
pub open spec fn u32_at(bytes: Seq<u8>, pos: int) -> int {
    be_value(bytes.subrange(pos, pos + 4)) as int
}

/// The number of padding bytes behind a payload of `size` bytes.
pub open spec fn padding(size: int) -> int {
    (4 - size % 4) % 4
}

/// The recognised chunks of a body from `pos` on, in their order, or `None`
/// where a chunk is cut short.
pub open spec fn chunks_from(body: Seq<u8>, pos: int) -> Option<Seq<ChunkModel>>
    decreases body.len() - pos,
{
    if pos >= body.len() {
        Some(Seq::<ChunkModel>::empty())
    } else if pos < 0 || pos + 8 > body.len() {
        None
    } else {
        let size = u32_at(body, pos + 4);
        let stop = pos + 8 + size + padding(size);
        if stop > body.len() {
            None
        } else {
            match chunks_from(body, stop) {
                None => None,
                Some(rest) => if recognised(u32_at(body, pos) as u32) {
                    Some(
                        seq![
                            ChunkModel {
                                tag: u32_at(body, pos) as u32,
                                payload: body.subrange(pos + 8, pos + 8 + size),
                            },
                        ] + rest,
                    )
                } else {
                    Some(rest)
                },
            }
        }
    }
}

/// The recognised chunks of a file, or the rule that the file breaks.
pub open spec fn file_chunks(bytes: Seq<u8>) -> Result<Seq<ChunkModel>, ModuleFault> {
    if bytes.len() < 4 || u32_at(bytes, 0) != MAGIC_FOR1 {
        Err(ModuleFault::BadMagic)
    } else if bytes.len() < 8 || 8 + u32_at(bytes, 4) > bytes.len() || u32_at(bytes, 4) < 4 {
        Err(ModuleFault::ShortChunk)
    } else if u32_at(bytes, 8) != FORM_BEAM {
        Err(ModuleFault::BadFormType)
    } else {
        match chunks_from(bytes.subrange(8, 8 + u32_at(bytes, 4)), 4) {
            Some(chunks) => Ok(chunks),
            None => Err(ModuleFault::ShortChunk),
        }
    }
}

/// Whether the tag is one that the loader knows.
pub fn is_recognised(tag: u32) -> (b: bool)
    ensures
        b == recognised(tag),
{
    tag == CHUNK_ATOM || tag == CHUNK_ATU8 || tag == CHUNK_CODE || tag == CHUNK_STRT || tag
        == CHUNK_IMPT || tag == CHUNK_EXPT || tag == CHUNK_LOCT || tag == CHUNK_FUNT || tag
        == CHUNK_LITT || tag == CHUNK_LABT || tag == CHUNK_LINE
}

/// Reads a module file into its recognised chunks, each with its payload
/// byte for byte.  Bytes behind the announced size are ignored.
pub fn read_chunks(bytes: Vec<u8>) -> (r: Result<Vec<Chunk>, RtErr>)
    ensures
        match file_chunks(bytes@) {
            Ok(chunks) => {
                &&& r matches Ok(v)
                &&& chunk_models(v@) == chunks
            },
            Err(fault) => {
                &&& r matches Err(e)
                &&& e@ == Fault::MalformedModule(fault)
            },
        },
{
    let ghost all = bytes@;
    let mut outer = BinaryReader::from_bytes(bytes);
    proof {
        if all.len() >= 4 {
            assert(outer.window(4) =~= all.subrange(0, 4));
        }
    }
    let magic: u32 = match outer.read_u32_be() {
        Ok(v) => v,
        Err(e) => {
            return Err(RtErr::MalformedModule(ModuleFault::BadMagic));
        },
    };
    if magic != MAGIC_FOR1 {
        return Err(RtErr::MalformedModule(ModuleFault::BadMagic));
    }
    let size: u32 = match outer.read_u32_be() {
        Ok(v) => v,
        Err(e) => {
            return Err(RtErr::MalformedModule(ModuleFault::ShortChunk));
        },
    };
    if size < 4 {
        return Err(RtErr::MalformedModule(ModuleFault::ShortChunk));
    }
    let body: Vec<u8> = match outer.read_bytes(size as usize) {
        Ok(v) => v,
        Err(e) => {
            return Err(RtErr::MalformedModule(ModuleFault::ShortChunk));
        },
    };
    let ghost image = body@;
    assert(image =~= all.subrange(8, 8 + u32_at(all, 4)));
    assert(image.subrange(0, 4) =~= all.subrange(8, 12));
    let mut r = BinaryReader::from_bytes(body);
    let form: u32 = match r.read_u32_be() {
        Ok(v) => v,
        Err(e) => {
            return Err(RtErr::MalformedModule(ModuleFault::ShortChunk));
        },
    };
    if form != FORM_BEAM {
        return Err(RtErr::MalformedModule(ModuleFault::BadFormType));
    }
    let mut out: Vec<Chunk> = Vec::new();
    assert(chunk_models(out@) =~= Seq::<ChunkModel>::empty());
    while !r.eof()
        invariant
            r.bytes() == image,
            r.pos() >= 4,
            all == bytes@,
            file_chunks(all) == (match chunks_from(image, 4) {
                Some(chunks) => Ok::<Seq<ChunkModel>, ModuleFault>(chunks),
                None => Err::<Seq<ChunkModel>, ModuleFault>(ModuleFault::ShortChunk),
            }),
            chunks_from(image, r.pos() as int) matches Some(rest) ==> chunks_from(image, 4)
                == Some(chunk_models(out@) + rest),
            chunks_from(image, r.pos() as int) is None ==> chunks_from(image, 4) is None,
        decreases image.len() - r.pos(),
    {
        let ghost pos = r.pos() as int;
        let tag: u32 = match r.read_u32_be() {
            Ok(v) => v,
            Err(e) => {
                return Err(RtErr::MalformedModule(ModuleFault::ShortChunk));
            },
        };
        let size: u32 = match r.read_u32_be() {
            Ok(v) => v,
            Err(e) => {
                return Err(RtErr::MalformedModule(ModuleFault::ShortChunk));
            },
        };
        let payload: Vec<u8> = match r.read_bytes(size as usize) {
            Ok(v) => v,
            Err(e) => {
                return Err(RtErr::MalformedModule(ModuleFault::ShortChunk));
            },
        };
        let pad: usize = ((4 - size % 4) % 4) as usize;
        match r.read_bytes(pad) {
            Ok(v) => {},
            Err(e) => {
                return Err(RtErr::MalformedModule(ModuleFault::ShortChunk));
            },
        }
        if is_recognised(tag) {
            let ghost before = chunk_models(out@);
            out.push(Chunk { tag, payload });
            proof {
                let added = ChunkModel { tag, payload: image.subrange(pos + 8, pos + 8 + size) };
                assert(chunk_models(out@) =~= before + seq![added]);
                if chunks_from(image, r.pos() as int) is Some {
                    let rest = chunks_from(image, r.pos() as int)->Some_0;
                    assert(before + (seq![added] + rest) =~= before + seq![added] + rest);
                }
            }
        }
    }
    proof {
        assert(chunk_models(out@) + Seq::<ChunkModel>::empty() =~= chunk_models(out@));
    }
    Ok(out)
}

} // verus!
