//! Cutting every wanted chunk out of one blob image.
//!
//! Given a blob's bytes and its decoded index entries, the extractor
//! slices each entry's range out of the blob and names the result after
//! the chunk, ready to be staged. An entry whose range runs past the end
//! of the blob is skipped: its chunk simply stays unstaged, and whatever
//! depends on it is handled at assembly time, never by aborting the pass.

use crate::index::{ChunkIndexEntry, ChunkIndexEntryView};
use crate::slice::{read_slice, spec_slice};
use vstd::prelude::*;

verus! {

/// One extracted chunk payload, named by its chunk so the staging area can
/// file it.
pub struct StagedChunk {
    pub chunk_name: String,
    pub data: Vec<u8>,
}

/// The payloads that extracting `entries` from `blob` yields, in entry
/// order; entries whose range does not fit the blob contribute nothing.
pub open spec fn spec_extract(blob: Seq<u8>, entries: Seq<ChunkIndexEntryView>) -> Seq<
    (Seq<char>, Seq<u8>),
>
    decreases entries.len(),
{
    if entries.len() == 0 {
        Seq::empty()
    } else {
        let rest = spec_extract(blob, entries.drop_last());
        let last = entries.last();
        match spec_slice(blob, last.offset as int, last.size as int) {
            Some(bytes) => rest.push((last.chunk_name, bytes)),
            None => rest,
        }
    }
}

/// Cut every entry's payload out of the blob image. The result pairs each
/// chunk name with exactly the blob bytes its index entry describes.
pub fn extract_chunks(blob: &[u8], entries: &Vec<ChunkIndexEntry>) -> (r: Vec<StagedChunk>)
    requires
        forall|i: int|
            0 <= i < entries@.len() ==> #[trigger] entries@[i].offset + entries@[i].size
                <= usize::MAX,
    ensures
        r@.map_values(|c: StagedChunk| (c.chunk_name@, c.data@)) == spec_extract(
            blob@,
            entries@.map_values(|e: ChunkIndexEntry| e@),
        ),
{
    let ghost views = entries@.map_values(|e: ChunkIndexEntry| e@);
    let mut out: Vec<StagedChunk> = Vec::new();
    let mut i: usize = 0;
    while i < entries.len()
        invariant
            i <= entries@.len(),
            views == entries@.map_values(|e: ChunkIndexEntry| e@),
            forall|j: int|
                0 <= j < entries@.len() ==> #[trigger] entries@[j].offset + entries@[j].size
                    <= usize::MAX,
            out@.map_values(|c: StagedChunk| (c.chunk_name@, c.data@)) == spec_extract(
                blob@,
                views.take(i as int),
            ),
        decreases entries@.len() - i,
    {
        let entry = &entries[i];
        proof {
            assert(views.take(i + 1).drop_last() =~= views.take(i as int));
            assert(views.take(i + 1).last() == views[i as int]);
            assert(views[i as int] == entries@[i as int]@);
        }
        match read_slice(blob, entry.offset as usize, entry.size as usize) {
            Some(data) => {
                out.push(StagedChunk { chunk_name: entry.chunk_name.clone(), data });
                proof {
                    assert(out@.map_values(|c: StagedChunk| (c.chunk_name@, c.data@))
                        =~= out@.drop_last().map_values(|c: StagedChunk| (c.chunk_name@, c.data@))
                        .push((out@.last().chunk_name@, out@.last().data@)));
                }
            },
            None => {},
        }
        i = i + 1;
    }
    proof {
        assert(views.take(views.len() as int) =~= views);
    }
    out
}

} // verus!
