//! Writing the container of a module file, and the law that a file that was
//! written is read back chunk for chunk.
use vstd::prelude::*;
use crate::bin_reader::be_value;
use crate::compact_write::{be_bytes, lemma_be_bytes_value, lemma_pow256_values};
use crate::container::{
    chunk_models, chunks_from, file_chunks, padding, recognised, u32_at, Chunk, ChunkModel,
    FORM_BEAM, MAGIC_FOR1,
};
use crate::fail::ModuleFault;

verus! {

/// `n` zero bytes.
pub open spec fn zeros(n: int) -> Seq<u8> {
    Seq::new(n as nat, |i: int| 0u8)
}

/// The bytes of one chunk: tag, size, payload, padding.
pub open spec fn chunk_bytes(c: ChunkModel) -> Seq<u8> {
    be_bytes(c.tag as nat, 4) + be_bytes(c.payload.len(), 4) + c.payload + zeros(
        padding(c.payload.len() as int),
    )
}

/// The bytes of chunks, one behind the other.
pub open spec fn chunks_bytes(chunks: Seq<ChunkModel>) -> Seq<u8>
    decreases chunks.len(),
{
    if chunks.len() == 0 {
        Seq::<u8>::empty()
    } else {
        chunk_bytes(chunks[0]) + chunks_bytes(chunks.drop_first())
    }
}

/// The bytes of a module file that holds these chunks.
pub open spec fn container_bytes(chunks: Seq<ChunkModel>) -> Seq<u8> {
    be_bytes(MAGIC_FOR1 as nat, 4) + be_bytes((4 + chunks_bytes(chunks).len()) as nat, 4)
        + be_bytes(FORM_BEAM as nat, 4) + chunks_bytes(chunks)
}

/// The chunks with a recognised tag, in their order.
pub open spec fn keep_recognised(chunks: Seq<ChunkModel>) -> Seq<ChunkModel>
    decreases chunks.len(),
{
    if chunks.len() == 0 {
        Seq::<ChunkModel>::empty()
    } else if recognised(chunks[0].tag) {
        seq![chunks[0]] + keep_recognised(chunks.drop_first())
    } else {
        keep_recognised(chunks.drop_first())
    }
}

/// Whether every payload is short enough for its size to be written.
pub open spec fn payloads_fit(chunks: Seq<ChunkModel>) -> bool {
    forall|i: int| 0 <= i < chunks.len() ==> (#[trigger] chunks[i]).payload.len() < 0x1_0000_0000
}

/// Four bytes that were written from a number stand for that number.
proof fn lemma_u32_written(bytes: Seq<u8>, pos: int, v: nat)
    requires
        v < 0x1_0000_0000,
        0 <= pos,
        pos + 4 <= bytes.len(),
        bytes.subrange(pos, pos + 4) == be_bytes(v, 4),
    ensures
        u32_at(bytes, pos) == v,
{
    lemma_pow256_values();
    lemma_be_bytes_value(v, 4);
}

/// The chunks that were written behind a prefix are read from its end.
proof fn lemma_chunks_read_back(prefix: Seq<u8>, chunks: Seq<ChunkModel>)
    requires
        payloads_fit(chunks),
    ensures
        chunks_from(prefix + chunks_bytes(chunks), prefix.len() as int) == Some(
            keep_recognised(chunks),
        ),
    decreases chunks.len(),
{
    let body = prefix + chunks_bytes(chunks);
    let pos = prefix.len() as int;
    if chunks.len() == 0 {
        assert(body.len() == pos);
    } else {
        let c = chunks[0];
        let rest = chunks.drop_first();
        let size = c.payload.len() as int;
        let image = chunk_bytes(c);
        lemma_pow256_values();
        lemma_be_bytes_value(c.tag as nat, 4);
        lemma_be_bytes_value(c.payload.len(), 4);
        assert(image.len() == 8 + size + padding(size));
        assert(body.subrange(pos, pos + 4) =~= be_bytes(c.tag as nat, 4));
        assert(body.subrange(pos + 4, pos + 8) =~= be_bytes(c.payload.len(), 4));
        assert(body.subrange(pos + 8, pos + 8 + size) =~= c.payload);
        lemma_u32_written(body, pos, c.tag as nat);
        lemma_u32_written(body, pos + 4, c.payload.len());
        assert(payloads_fit(rest)) by {
            assert forall|i: int| 0 <= i < rest.len() implies (#[trigger] rest[i]).payload.len()
                < 0x1_0000_0000 by {
                assert(rest[i] == chunks[i + 1]);
            }
        }
        lemma_chunks_read_back(prefix + image, rest);
        assert(prefix + image + chunks_bytes(rest) =~= body);
    }
}

/// Reading inverts writing: a file that was written from chunks is read
/// back as those chunks that have a recognised tag, each with the payload
/// that was written, byte for byte.
pub proof fn lemma_container_round_trip(chunks: Seq<ChunkModel>)
    requires
        payloads_fit(chunks),
        4 + chunks_bytes(chunks).len() < 0x1_0000_0000,
    ensures
        file_chunks(container_bytes(chunks)) == Ok::<Seq<ChunkModel>, ModuleFault>(
            keep_recognised(chunks),
        ),
{
    let inner = chunks_bytes(chunks);
    let bytes = container_bytes(chunks);
    let size = (4 + inner.len()) as nat;
    lemma_pow256_values();
    lemma_be_bytes_value(MAGIC_FOR1 as nat, 4);
    lemma_be_bytes_value(size, 4);
    lemma_be_bytes_value(FORM_BEAM as nat, 4);
    assert(bytes.len() == 12 + inner.len());
    assert(bytes.subrange(0, 4) =~= be_bytes(MAGIC_FOR1 as nat, 4));
    assert(bytes.subrange(4, 8) =~= be_bytes(size, 4));
    assert(bytes.subrange(8, 12) =~= be_bytes(FORM_BEAM as nat, 4));
    lemma_u32_written(bytes, 0, MAGIC_FOR1 as nat);
    lemma_u32_written(bytes, 4, size);
    lemma_u32_written(bytes, 8, FORM_BEAM as nat);
    let body = bytes.subrange(8, 8 + size as int);
    assert(body =~= be_bytes(FORM_BEAM as nat, 4) + inner);
    lemma_chunks_read_back(be_bytes(FORM_BEAM as nat, 4), chunks);
}

/// The bytes of chunks, with one more chunk at the end.
proof fn lemma_chunks_bytes_push(chunks: Seq<ChunkModel>, c: ChunkModel)
    ensures
        chunks_bytes(chunks.push(c)) == chunks_bytes(chunks) + chunk_bytes(c),
    decreases chunks.len(),
{
    let all = chunks.push(c);
    if chunks.len() == 0 {
        assert(all.drop_first() =~= Seq::<ChunkModel>::empty());
        assert(chunks_bytes(all.drop_first()) =~= Seq::<u8>::empty());
        assert(chunks_bytes(all) =~= chunk_bytes(c));
        assert(chunks_bytes(chunks) + chunk_bytes(c) =~= chunk_bytes(c));
    } else {
        lemma_chunks_bytes_push(chunks.drop_first(), c);
        assert(all.drop_first() =~= chunks.drop_first().push(c));
        assert(chunks_bytes(all) =~= chunk_bytes(chunks[0]) + (chunks_bytes(chunks.drop_first())
            + chunk_bytes(c)));
        assert(chunks_bytes(all) =~= chunks_bytes(chunks) + chunk_bytes(c));
    }
}

/// `n` bytes are `n` bytes.
proof fn lemma_be_bytes_len(u: nat, n: nat)
    ensures
        be_bytes(u, n).len() == n,
    decreases n,
{
    if n > 0 {
        lemma_be_bytes_len(u / 256, (n - 1) as nat);
    }
}

/// Appends the four bytes of `v`, most significant first.
fn push_u32(out: &mut Vec<u8>, v: u32)
    ensures
        final(out)@ == old(out)@ + be_bytes(v as nat, 4),
{
    out.push((v / 0x100_0000) as u8);
    out.push(((v / 0x1_0000) % 256) as u8);
    out.push(((v / 0x100) % 256) as u8);
    out.push((v % 256) as u8);
    proof {
        reveal_with_fuel(be_bytes, 5);
        assert(out@ =~= old(out)@ + be_bytes(v as nat, 4));
    }
}

/// Writes a module file that holds the chunks.  Returns `None` exactly when
/// a payload, or the whole, is too long for its size to be written.
pub fn write_container(chunks: &Vec<Chunk>) -> (r: Option<Vec<u8>>)
    ensures
        payloads_fit(chunk_models(chunks@)) && 4 + chunks_bytes(chunk_models(chunks@)).len()
            < 0x1_0000_0000 ==> {
            &&& r matches Some(bytes)
            &&& bytes@ == container_bytes(chunk_models(chunks@))
        },
        !(payloads_fit(chunk_models(chunks@)) && 4 + chunks_bytes(chunk_models(chunks@)).len()
            < 0x1_0000_0000) ==> r.is_none(),
{
    let ghost models = chunk_models(chunks@);
    let mut inner: Vec<u8> = Vec::new();
    let mut i: usize = 0;
    assert(models.subrange(0, 0) =~= Seq::<ChunkModel>::empty());
    while i < chunks.len()
        invariant
            i <= chunks@.len(),
            models == chunk_models(chunks@),
            inner@ == chunks_bytes(models.subrange(0, i as int)),
            payloads_fit(models.subrange(0, i as int)),
            4 + inner@.len() < 0x1_0000_0000,
        decreases chunks@.len() - i,
    {
        let c = &chunks[i];
        let size: usize = c.payload.len();
        proof {
            lemma_chunks_bytes_push(models.subrange(0, i as int), models[i as int]);
            assert(models.subrange(0, i + 1) =~= models.subrange(0, i as int).push(
                models[i as int],
            ));
            lemma_bytes_grow(models, i as int);
        }
        let pad: usize = (4 - size % 4) % 4;
        proof {
            lemma_be_bytes_len(c.tag as nat, 4);
            lemma_be_bytes_len(size as nat, 4);
            assert(chunk_bytes(models[i as int]).len() == 8 + size + pad);
        }
        if size as u64 >= 0x1_0000_0000 || inner.len() as u64 + 12 + size as u64 + pad as u64
            >= 0x1_0000_0000 {
            return None;
        }
        push_u32(&mut inner, c.tag);
        push_u32(&mut inner, size as u32);
        let mut k: usize = 0;
        let ghost head = inner@;
        while k < size
            invariant
                k <= size,
                size == c.payload@.len(),
                inner@ == head + c.payload@.subrange(0, k as int),
            decreases size - k,
        {
            inner.push(c.payload[k]);
            k += 1;
            assert(inner@ =~= head + c.payload@.subrange(0, k as int));
        }
        assert(c.payload@.subrange(0, size as int) =~= c.payload@);
        let mut z: usize = 0;
        let ghost filled = inner@;
        while z < pad
            invariant
                z <= pad,
                inner@ == filled + zeros(z as int),
            decreases pad - z,
        {
            inner.push(0);
            z += 1;
            assert(inner@ =~= filled + zeros(z as int));
        }
        proof {
            assert(inner@ =~= chunks_bytes(models.subrange(0, i as int)) + chunk_bytes(
                models[i as int],
            ));
            assert forall|j: int| 0 <= j < i + 1 implies (#[trigger] models.subrange(
                0,
                i + 1,
            )[j]).payload.len() < 0x1_0000_0000 by {
                if j < i {
                    assert(models.subrange(0, i as int)[j] == models[j]);
                }
            }
        }
        i += 1;
    }
    assert(models.subrange(0, i as int) =~= models);
    let mut out: Vec<u8> = Vec::new();
    push_u32(&mut out, MAGIC_FOR1);
    push_u32(&mut out, (4 + inner.len()) as u32);
    push_u32(&mut out, FORM_BEAM);
    let mut k: usize = 0;
    let ghost head = out@;
    while k < inner.len()
        invariant
            k <= inner@.len(),
            out@ == head + inner@.subrange(0, k as int),
        decreases inner@.len() - k,
    {
        out.push(inner[k]);
        k += 1;
        assert(out@ =~= head + inner@.subrange(0, k as int));
    }
    assert(inner@.subrange(0, inner@.len() as int) =~= inner@);
    Some(out)
}

/// The bytes of all chunks are at least as many as those of the first `i`
/// and of chunk `i` together.
proof fn lemma_bytes_grow(chunks: Seq<ChunkModel>, i: int)
    requires
        0 <= i < chunks.len(),
    ensures
        chunks_bytes(chunks).len() >= chunks_bytes(chunks.subrange(0, i)).len() + chunk_bytes(
            chunks[i],
        ).len(),
        !payloads_fit(chunks.subrange(0, i + 1)) ==> !payloads_fit(chunks),
    decreases chunks.len() - i,
{
    let upto = chunks.subrange(0, i + 1);
    lemma_chunks_bytes_push(chunks.subrange(0, i), chunks[i]);
    assert(upto =~= chunks.subrange(0, i).push(chunks[i]));
    if i + 1 < chunks.len() {
        lemma_bytes_grow(chunks, i + 1);
    } else {
        assert(upto =~= chunks);
    }
    if !payloads_fit(upto) {
        let j = choose|j: int| 0 <= j < upto.len() && !((#[trigger] upto[j]).payload.len()
            < 0x1_0000_0000);
        assert(chunks[j] == upto[j]);
    }
}

} // verus!
