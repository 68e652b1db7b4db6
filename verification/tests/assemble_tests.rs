use sophon::assemble::{
    assemble_asset, assemble_asset_output, assemble_asset_presized, estimate_buffer_size,
    write_chunk_at, StagedPayload,
};

fn staged(offset: usize, data: &[u8]) -> StagedPayload {
    StagedPayload { offset, data: data.to_vec() }
}

#[test]
fn write_into_empty_buffer_grows_it() {
    let mut buf: Vec<u8> = Vec::new();
    write_chunk_at(&mut buf, 2, &[7, 8]);
    assert_eq!(buf, vec![0, 0, 7, 8]);
}

#[test]
fn write_overwrites_in_place() {
    let mut buf: Vec<u8> = vec![1, 2, 3, 4];
    write_chunk_at(&mut buf, 1, &[9, 9]);
    assert_eq!(buf, vec![1, 9, 9, 4]);
}

#[test]
fn write_partly_past_end_grows_only_as_needed() {
    let mut buf: Vec<u8> = vec![1, 2, 3];
    write_chunk_at(&mut buf, 2, &[5, 6]);
    assert_eq!(buf, vec![1, 2, 5, 6]);
}

#[test]
fn tiled_chunks_reassemble_byte_exact() {
    // Fully tiled, non-overlapping ranges: the output is exactly the
    // composition the (offset, payload) pairs define.
    let chunks = vec![staged(0, b"abcdef"), staged(6, b"ghij")];
    let buf = assemble_asset(&chunks);
    assert_eq!(buf, b"abcdefghij".to_vec());
}

#[test]
fn chunk_order_does_not_matter_for_disjoint_ranges() {
    let forward = assemble_asset(&vec![staged(0, b"abc"), staged(3, b"def")]);
    let backward = assemble_asset(&vec![staged(3, b"def"), staged(0, b"abc")]);
    assert_eq!(forward, backward);
    assert_eq!(forward, b"abcdef".to_vec());
}

#[test]
fn missing_chunk_leaves_zero_filled_gap() {
    // The chunk covering [3, 6) was never staged.
    let chunks = vec![staged(0, b"abc"), staged(6, b"xy")];
    let buf = assemble_asset(&chunks);
    assert_eq!(buf, vec![b'a', b'b', b'c', 0, 0, 0, b'x', b'y']);
}

#[test]
fn presized_assembly_zero_fills_the_declared_tail() {
    // Scenario: asset of declared size 100 composed of "c1" (offset 0,
    // length 60) and "c2" (offset 60, length 40), with "c2" missing from
    // every blob: the output is 100 bytes, [0, 60) from "c1", [60, 100)
    // zero.
    let c1 = vec![0xabu8; 60];
    let chunks = vec![staged(0, &c1)];
    let buf = assemble_asset_presized(100, &chunks);
    assert_eq!(buf.len(), 100);
    assert_eq!(&buf[..60], &c1[..]);
    assert!(buf[60..].iter().all(|&b| b == 0));
}

#[test]
fn presized_assembly_still_grows_past_declared_size() {
    let chunks = vec![staged(4, b"abcd")];
    let buf = assemble_asset_presized(3, &chunks);
    assert_eq!(buf, vec![0, 0, 0, 0, b'a', b'b', b'c', b'd']);
}

#[test]
fn asset_without_staged_chunks_is_skipped() {
    let r = assemble_asset_output(100, &Vec::new());
    assert!(r.is_none());
}

#[test]
fn asset_with_staged_chunks_is_emitted() {
    let r = assemble_asset_output(4, &vec![staged(0, b"ab")]);
    assert_eq!(r, Some(vec![b'a', b'b', 0, 0]));
}

#[test]
fn estimate_is_furthest_chunk_end() {
    assert_eq!(estimate_buffer_size(&Vec::new()), 0);
    let chunks = vec![staged(10, b"abc"), staged(0, b"defgh")];
    assert_eq!(estimate_buffer_size(&chunks), 13);
}

#[test]
fn reassembly_is_idempotent() {
    // Assembling twice from unchanged staged chunks yields byte-identical
    // output.
    let chunks = vec![staged(0, b"abcdef"), staged(6, b"ghij")];
    let first = assemble_asset_presized(10, &chunks);
    let second = assemble_asset_presized(10, &chunks);
    assert_eq!(first, second);
}
