//! Scatter-gather assembly of one asset from its staged chunk payloads.
//!
//! Each staged chunk carries the destination offset inside the asset's
//! final byte layout. The assembler copies every payload into one shared
//! buffer at its offset, growing the buffer (zero-filled) whenever a chunk
//! would run past the current end. The buffer may start empty, or pre-sized
//! to the asset's declared total size so that byte ranges no staged chunk
//! covers come out zero-filled.

use vstd::prelude::*;

verus! {

/// One chunk payload staged for assembly: the raw bytes and the byte offset
/// at which they belong inside the owning asset.
pub struct StagedPayload {
    pub offset: usize,
    pub data: Vec<u8>,
}

/// `n` zero bytes.
pub open spec fn spec_zero_bytes(n: nat) -> Seq<u8> {
    Seq::new(n, |i: int| 0u8)
}

/// `buf` zero-extended on the right until it is at least `n` bytes long.
pub open spec fn grow_to(buf: Seq<u8>, n: int) -> Seq<u8> {
    if n <= buf.len() {
        buf
    } else {
        buf + Seq::new((n - buf.len()) as nat, |i: int| 0u8)
    }
}

/// `buf` with `payload` written at `offset`, growing (zero-filled) first if
/// the write would run past the end of `buf`.
pub open spec fn update_range(buf: Seq<u8>, offset: int, payload: Seq<u8>) -> Seq<u8>
    recommends
        0 <= offset,
{
    let grown = grow_to(buf, offset + payload.len());
    Seq::new(
        grown.len(),
        |i: int|
            if offset <= i < offset + payload.len() {
                payload[i - offset]
            } else {
                grown[i]
            },
    )
}

/// The buffer obtained by writing every staged payload, in order, into
/// `base`.
pub open spec fn spec_assemble_onto(base: Seq<u8>, chunks: Seq<StagedPayload>) -> Seq<u8>
    decreases chunks.len(),
{
    if chunks.len() == 0 {
        base
    } else {
        update_range(
            spec_assemble_onto(base, chunks.drop_last()),
            chunks.last().offset as int,
            chunks.last().data@,
        )
    }
}

/// The buffer obtained by writing every staged payload, in order, into an
/// initially empty buffer.
pub open spec fn spec_assemble(chunks: Seq<StagedPayload>) -> Seq<u8> {
    spec_assemble_onto(Seq::empty(), chunks)
}

/// The least buffer length that fits every staged payload: the maximum of
/// `offset + len` over the chunks, and zero when there are none.
pub open spec fn spec_max_end(chunks: Seq<StagedPayload>) -> int
    decreases chunks.len(),
{
    if chunks.len() == 0 {
        0
    } else {
        let rest = spec_max_end(chunks.drop_last());
        let last_end = chunks.last().offset + chunks.last().data@.len();
        if last_end > rest {
            last_end
        } else {
            rest
        }
    }
}

/// Whether byte position `k` of the asset falls inside chunk `c`'s range.
pub open spec fn covers(c: StagedPayload, k: int) -> bool {
    c.offset <= k < c.offset + c.data@.len()
}

/// Whether the chunks' destination ranges are pairwise non-overlapping.
pub open spec fn disjoint_ranges(chunks: Seq<StagedPayload>) -> bool {
    forall|i: int, j: int, k: int|
        0 <= i < chunks.len() && 0 <= j < chunks.len() && i != j ==> !(
        #[trigger] covers(chunks[i], k) && #[trigger] covers(chunks[j], k))
}

/// Write `payload` into `buf` at `offset`, growing `buf` zero-filled first
/// when the write runs past the current end.
pub fn write_chunk_at(buf: &mut Vec<u8>, offset: usize, payload: &[u8])
    requires
        offset + payload@.len() <= usize::MAX,
    ensures
        final(buf)@ == update_range(old(buf)@, offset as int, payload@),
{
    let end = offset + payload.len();
    if buf.len() < end {
        buf.resize(end, 0u8);
    }
    assert(buf@ =~= grow_to(old(buf)@, offset + payload@.len()));
    let ghost grown = buf@;
    let mut i: usize = 0;
    while i < payload.len()
        invariant
            i <= payload@.len(),
            offset + payload@.len() <= usize::MAX,
            offset + payload@.len() <= buf@.len(),
            buf@.len() == grown.len(),
            forall|k: int|
                0 <= k < buf@.len() && !(offset <= k < offset + i) ==> buf@[k] == grown[k],
            forall|k: int| offset <= k < offset + i ==> buf@[k] == payload@[k - offset],
        decreases payload@.len() - i,
    {
        buf[offset + i] = payload[i];
        i = i + 1;
    }
    assert(final(buf)@ =~= update_range(old(buf)@, offset as int, payload@));
}

/// Copy every staged payload into the buffer at its destination offset, in
/// order.
fn write_all_chunks(buf: &mut Vec<u8>, chunks: &Vec<StagedPayload>)
    requires
        forall|i: int|
            0 <= i < chunks@.len() ==> #[trigger] chunks@[i].offset + chunks@[i].data@.len()
                <= usize::MAX,
    ensures
        final(buf)@ == spec_assemble_onto(old(buf)@, chunks@),
{
    let ghost base = buf@;
    let mut i: usize = 0;
    while i < chunks.len()
        invariant
            i <= chunks@.len(),
            buf@ == spec_assemble_onto(base, chunks@.take(i as int)),
            forall|j: int|
                0 <= j < chunks@.len() ==> #[trigger] chunks@[j].offset + chunks@[j].data@.len()
                    <= usize::MAX,
        decreases chunks@.len() - i,
    {
        let c = &chunks[i];
        write_chunk_at(buf, c.offset, c.data.as_slice());
        proof {
            assert(chunks@.take(i + 1).drop_last() =~= chunks@.take(i as int));
            assert(chunks@.take(i + 1).last() == chunks@[i as int]);
        }
        i = i + 1;
    }
    assert(chunks@.take(chunks@.len() as int) =~= chunks@);
}

/// Assemble one asset from an initially empty buffer: the buffer grows
/// exactly as far as the staged chunks reach.
pub fn assemble_asset(chunks: &Vec<StagedPayload>) -> (buf: Vec<u8>)
    requires
        forall|i: int|
            0 <= i < chunks@.len() ==> #[trigger] chunks@[i].offset + chunks@[i].data@.len()
                <= usize::MAX,
    ensures
        buf@ == spec_assemble(chunks@),
{
    let mut buf: Vec<u8> = Vec::new();
    write_all_chunks(&mut buf, chunks);
    buf
}

/// Assemble one asset into a buffer pre-sized to the asset's declared
/// total size, zero-filled: byte ranges no staged chunk covers stay zero,
/// and a chunk running past the declared size still grows the buffer
/// safely.
pub fn assemble_asset_presized(total_size: usize, chunks: &Vec<StagedPayload>) -> (buf: Vec<u8>)
    requires
        forall|i: int|
            0 <= i < chunks@.len() ==> #[trigger] chunks@[i].offset + chunks@[i].data@.len()
                <= usize::MAX,
    ensures
        buf@ == spec_assemble_onto(spec_zero_bytes(total_size as nat), chunks@),
{
    let mut buf: Vec<u8> = vec![0u8; total_size];
    assert(buf@ =~= spec_zero_bytes(total_size as nat));
    write_all_chunks(&mut buf, chunks);
    buf
}

/// Assemble one asset for writing, or skip it: an asset with zero staged
/// chunks yields no output at all (and no error), anything else yields the
/// pre-sized, zero-filled composition of its staged chunks.
pub fn assemble_asset_output(total_size: usize, chunks: &Vec<StagedPayload>) -> (r: Option<Vec<u8>>)
    requires
        forall|i: int|
            0 <= i < chunks@.len() ==> #[trigger] chunks@[i].offset + chunks@[i].data@.len()
                <= usize::MAX,
    ensures
        r is None <==> chunks@.len() == 0,
        r matches Some(v) ==> v@ == spec_assemble_onto(
            spec_zero_bytes(total_size as nat),
            chunks@,
        ),
{
    if chunks.len() == 0 {
        None
    } else {
        Some(assemble_asset_presized(total_size, chunks))
    }
}

/// The upper-bound buffer size for one asset: the maximum of
/// `offset + payload length` over its staged chunks.
pub fn estimate_buffer_size(chunks: &Vec<StagedPayload>) -> (n: usize)
    requires
        forall|i: int|
            0 <= i < chunks@.len() ==> #[trigger] chunks@[i].offset + chunks@[i].data@.len()
                <= usize::MAX,
    ensures
        n == spec_max_end(chunks@),
{
    let mut n: usize = 0;
    let mut i: usize = 0;
    while i < chunks.len()
        invariant
            i <= chunks@.len(),
            n == spec_max_end(chunks@.take(i as int)),
            forall|j: int|
                0 <= j < chunks@.len() ==> #[trigger] chunks@[j].offset + chunks@[j].data@.len()
                    <= usize::MAX,
        decreases chunks@.len() - i,
    {
        let c = &chunks[i];
        let end = c.offset + c.data.len();
        if end > n {
            n = end;
        }
        proof {
            assert(chunks@.take(i + 1).drop_last() =~= chunks@.take(i as int));
            assert(chunks@.take(i + 1).last() == chunks@[i as int]);
        }
        i = i + 1;
    }
    assert(chunks@.take(chunks@.len() as int) =~= chunks@);
    n
}

/// The assembled buffer is exactly as long as the base or the furthest
/// chunk end, whichever is greater.
pub proof fn lemma_assemble_len(base: Seq<u8>, chunks: Seq<StagedPayload>)
    ensures
        spec_assemble_onto(base, chunks).len() == if spec_max_end(chunks) > base.len() {
            spec_max_end(chunks)
        } else {
            base.len() as int
        },
    decreases chunks.len(),
{
    if chunks.len() > 0 {
        lemma_assemble_len(base, chunks.drop_last());
    }
}

/// Every chunk's end stays within the furthest chunk end.
pub proof fn lemma_max_end_bound(chunks: Seq<StagedPayload>, i: int)
    requires
        0 <= i < chunks.len(),
    ensures
        chunks[i].offset + chunks[i].data@.len() <= spec_max_end(chunks),
    decreases chunks.len(),
{
    if i < chunks.len() - 1 {
        lemma_max_end_bound(chunks.drop_last(), i);
    }
}

/// Byte-exact round trip: when the chunks' destination ranges do not
/// overlap, every byte of the assembled asset that chunk `i` covers equals
/// the corresponding byte of chunk `i`'s payload, whatever the base held
/// there. The output is exactly the composition defined by the
/// `(offset, payload)` pairs.
pub proof fn lemma_assembled_chunk_bytes(
    base: Seq<u8>,
    chunks: Seq<StagedPayload>,
    i: int,
    k: int,
)
    requires
        disjoint_ranges(chunks),
        0 <= i < chunks.len(),
        covers(chunks[i], k),
    ensures
        0 <= k < spec_assemble_onto(base, chunks).len(),
        spec_assemble_onto(base, chunks)[k] == chunks[i].data@[k - chunks[i].offset],
    decreases chunks.len(),
{
    lemma_assemble_len(base, chunks);
    lemma_max_end_bound(chunks, i);
    let last = chunks.last();
    let rest = chunks.drop_last();
    if i == chunks.len() - 1 {
        assert(spec_assemble_onto(base, chunks)[k] == last.data@[k - last.offset]);
    } else {
        assert(covers(chunks[i], k));
        assert(!covers(last, k));
        assert(disjoint_ranges(rest)) by {
            assert(forall|a: int, b: int, m: int|
                0 <= a < rest.len() && 0 <= b < rest.len() && a != b ==> !(
                #[trigger] covers(rest[a], m) && #[trigger] covers(rest[b], m))) by {
                assert(forall|a: int| 0 <= a < rest.len() ==> rest[a] == chunks[a]);
            }
        }
        assert(rest[i] == chunks[i]);
        lemma_assembled_chunk_bytes(base, rest, i, k);
        lemma_assemble_len(base, rest);
        lemma_max_end_bound(rest, i);
        assert(k < spec_assemble_onto(base, rest).len());
        assert(spec_assemble_onto(base, chunks)[k] == spec_assemble_onto(base, rest)[k]);
    }
}

/// A byte position no staged chunk covers keeps the base's byte, or zero
/// where the buffer grew past the base.
pub proof fn lemma_assembled_gap(base: Seq<u8>, chunks: Seq<StagedPayload>, k: int)
    requires
        0 <= k < spec_assemble_onto(base, chunks).len(),
        forall|i: int| 0 <= i < chunks.len() ==> !covers(#[trigger] chunks[i], k),
    ensures
        spec_assemble_onto(base, chunks)[k] == if k < base.len() {
            base[k]
        } else {
            0u8
        },
    decreases chunks.len(),
{
    if chunks.len() > 0 {
        let last = chunks.last();
        let rest = chunks.drop_last();
        assert(!covers(last, k));
        assert(forall|i: int| 0 <= i < rest.len() ==> rest[i] == chunks[i]);
        lemma_assemble_len(base, rest);
        if k < spec_assemble_onto(base, rest).len() {
            lemma_assembled_gap(base, rest, k);
        } else {
            assert(k >= base.len());
            assert(spec_assemble_onto(base, chunks)[k] == 0u8);
        }
    }
}

/// A missing chunk never fails the run: in a buffer pre-sized to the
/// asset's declared size, every byte position no staged chunk covers is
/// zero, so a partially staged asset comes out with its gaps zero-filled,
/// deterministically.
pub proof fn lemma_assembled_gap_zero(n: nat, chunks: Seq<StagedPayload>, k: int)
    requires
        0 <= k < spec_assemble_onto(spec_zero_bytes(n), chunks).len(),
        forall|i: int| 0 <= i < chunks.len() ==> !covers(#[trigger] chunks[i], k),
    ensures
        spec_assemble_onto(spec_zero_bytes(n), chunks)[k] == 0,
{
    lemma_assembled_gap(spec_zero_bytes(n), chunks, k);
}

/// Reconstruction is idempotent: assembling the same staged chunks onto
/// the same base a second time yields byte-identical output.
pub proof fn lemma_assemble_idempotent(
    first_base: Seq<u8>,
    first: Seq<StagedPayload>,
    second_base: Seq<u8>,
    second: Seq<StagedPayload>,
)
    requires
        first_base == second_base,
        first == second,
    ensures
        spec_assemble_onto(first_base, first) == spec_assemble_onto(second_base, second),
{
}

} // verus!
