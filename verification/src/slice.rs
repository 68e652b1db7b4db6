//! Reading a chunk's bytes out of a blob file image.
//!
//! A blob file holds many chunks' raw bytes contiguously; a chunk occupies
//! the range `[offset, offset + length)`. The caller obtains the blob's
//! bytes either through a memory map or through a buffered reader; both
//! paths hand their bytes to the functions here, which carry out the
//! slicing and are proved to return identical results for the same input.

use vstd::prelude::*;
use vstd::slice::slice_to_vec;

verus! {

/// Blob files larger than this are memory mapped instead of read through a
/// buffered reader.
pub const LARGE_FILE_THRESHOLD: u64 = 10 * 1024 * 1024;

/// Payloads at least this large justify memory mapping the blob that holds
/// them when a single payload is being cut out.
pub const LARGE_PAYLOAD_THRESHOLD: u64 = 1024 * 1024;

/// The bytes of the slice `[offset, offset + length)` of `data`, or `None`
/// when the requested range runs past the end of the data.
pub open spec fn spec_slice(data: Seq<u8>, offset: int, length: int) -> Option<Seq<u8>> {
    if 0 <= offset && 0 <= length && offset + length <= data.len() {
        Some(data.subrange(offset, offset + length))
    } else {
        None
    }
}

/// Whether a blob file of `file_size` bytes should be memory mapped for a
/// whole-index extraction pass.
pub fn use_memory_map(file_size: u64) -> (r: bool)
    ensures
        r == (file_size > LARGE_FILE_THRESHOLD),
{
    file_size > LARGE_FILE_THRESHOLD
}

/// Whether a blob file of `file_size` bytes should be memory mapped to cut
/// out one payload of `payload_size` bytes.
pub fn use_memory_map_for_payload(file_size: u64, payload_size: u64) -> (r: bool)
    ensures
        r == (file_size > LARGE_FILE_THRESHOLD && payload_size > LARGE_PAYLOAD_THRESHOLD),
{
    file_size > LARGE_FILE_THRESHOLD && payload_size > LARGE_PAYLOAD_THRESHOLD
}

/// Slice a chunk out of a fully mapped blob image: bounds check once, then
/// take the range in one piece.
pub fn read_slice_mapped(data: &[u8], offset: usize, length: usize) -> (r: Option<Vec<u8>>)
    ensures
        match r {
            Some(v) => spec_slice(data@, offset as int, length as int) == Some(v@),
            None => spec_slice(data@, offset as int, length as int) is None,
        },
{
    if offset > data.len() || length > data.len() - offset {
        return None;
    }
    Some(slice_to_vec(&data[offset..offset + length]))
}

/// Slice a chunk out of a blob through bounded reads: seek to `offset`,
/// then gather `length` bytes block by block, the way a buffered reader
/// hands them out.
pub fn read_slice_buffered(data: &[u8], offset: usize, length: usize) -> (r: Option<Vec<u8>>)
    ensures
        match r {
            Some(v) => spec_slice(data@, offset as int, length as int) == Some(v@),
            None => spec_slice(data@, offset as int, length as int) is None,
        },
{
    if offset > data.len() || length > data.len() - offset {
        return None;
    }
    let end = offset + length;
    let mut out: Vec<u8> = Vec::new();
    let mut pos: usize = offset;
    while pos < end
        invariant
            offset <= pos <= end,
            end == offset + length,
            end <= data@.len(),
            out@ =~= data@.subrange(offset as int, pos as int),
        decreases end - pos,
    {
        let remaining = end - pos;
        let block: usize = if remaining < 65536 {
            remaining
        } else {
            65536
        };
        let mut j: usize = 0;
        while j < block
            invariant
                j <= block,
                offset <= pos,
                pos + block <= end,
                end <= data@.len(),
                out@ =~= data@.subrange(offset as int, pos + j),
            decreases block - j,
        {
            out.push(data[pos + j]);
            j = j + 1;
        }
        pos = pos + block;
    }
    assert(out@ =~= data@.subrange(offset as int, offset + length));
    Some(out)
}

/// Read the slice `[offset, offset + length)` out of a blob image, choosing
/// the mapped path for large blobs and the buffered path otherwise. Both
/// paths meet the same contract, so the choice never changes the bytes
/// returned.
pub fn read_slice(data: &[u8], offset: usize, length: usize) -> (r: Option<Vec<u8>>)
    ensures
        match r {
            Some(v) => spec_slice(data@, offset as int, length as int) == Some(v@),
            None => spec_slice(data@, offset as int, length as int) is None,
        },
{
    if use_memory_map(data.len() as u64) {
        read_slice_mapped(data, offset, length)
    } else {
        read_slice_buffered(data, offset, length)
    }
}

} // verus!
