use sophon::index::{
    lookup_wanted, parse_offset_value, select_wanted_chunks, ChunkIndex, ChunkIndexEntry,
    RawIndexEntry, WantedChunk,
};
use sophon::manifest::{build_chunk_cache, AssetChunk, AssetGroup, SophonChunkProto};

fn raw(key: &[u8], value: &[u8]) -> RawIndexEntry {
    RawIndexEntry { key: key.to_vec(), value: value.to_vec() }
}

fn wanted(name: &str, size: u64) -> WantedChunk {
    WantedChunk { chunk_name: name.to_string(), chunk_size: size }
}

#[test]
fn parse_plain_decimal() {
    assert_eq!(parse_offset_value(b"0"), Some(0));
    assert_eq!(parse_offset_value(b"123"), Some(123));
    assert_eq!(parse_offset_value(b"0042"), Some(42));
}

#[test]
fn parse_accepts_one_leading_plus() {
    assert_eq!(parse_offset_value(b"+123"), Some(123));
    assert_eq!(parse_offset_value(b"+"), None);
    assert_eq!(parse_offset_value(b"++1"), None);
}

#[test]
fn parse_rejects_empty_and_non_digits() {
    assert_eq!(parse_offset_value(b""), None);
    assert_eq!(parse_offset_value(b"12a"), None);
    assert_eq!(parse_offset_value(b"-1"), None);
    assert_eq!(parse_offset_value(b" 1"), None);
    assert_eq!(parse_offset_value(b"1 "), None);
}

#[test]
fn parse_respects_the_u64_boundary() {
    assert_eq!(parse_offset_value(b"18446744073709551615"), Some(u64::MAX));
    assert_eq!(parse_offset_value(b"18446744073709551616"), None);
    assert_eq!(parse_offset_value(b"99999999999999999999999"), None);
}

#[test]
fn selection_keeps_wanted_entries_with_manifest_sizes() {
    let entries = vec![raw(b"c1", b"0"), raw(b"c2", b"60")];
    let cache = vec![wanted("c1", 60), wanted("c2", 40)];
    let selected = select_wanted_chunks(&entries, &cache);
    assert_eq!(selected.len(), 2);
    assert_eq!(selected[0].chunk_name, "c1");
    assert_eq!(selected[0].offset, 0);
    assert_eq!(selected[0].size, 60);
    assert_eq!(selected[1].chunk_name, "c2");
    assert_eq!(selected[1].offset, 60);
    assert_eq!(selected[1].size, 40);
}

#[test]
fn selection_skips_non_utf8_keys() {
    let entries = vec![raw(&[0xff, 0xfe], b"0"), raw(b"c1", b"5")];
    let cache = vec![wanted("c1", 10)];
    let selected = select_wanted_chunks(&entries, &cache);
    assert_eq!(selected.len(), 1);
    assert_eq!(selected[0].chunk_name, "c1");
    assert_eq!(selected[0].offset, 5);
}

#[test]
fn selection_skips_non_numeric_values() {
    let entries = vec![raw(b"c1", b"zero"), raw(b"c2", b"7")];
    let cache = vec![wanted("c1", 10), wanted("c2", 20)];
    let selected = select_wanted_chunks(&entries, &cache);
    assert_eq!(selected.len(), 1);
    assert_eq!(selected[0].chunk_name, "c2");
}

#[test]
fn selection_skips_chunks_nobody_wants() {
    let entries = vec![raw(b"stray", b"0"), raw(b"c1", b"3")];
    let cache = vec![wanted("c1", 10)];
    let selected = select_wanted_chunks(&entries, &cache);
    assert_eq!(selected.len(), 1);
    assert_eq!(selected[0].chunk_name, "c1");
}

#[test]
fn wanted_lookup_finds_sizes() {
    let cache = vec![wanted("a", 1), wanted("b", 2)];
    assert_eq!(lookup_wanted(&cache, &"a".to_string()), Some(1));
    assert_eq!(lookup_wanted(&cache, &"b".to_string()), Some(2));
    assert_eq!(lookup_wanted(&cache, &"c".to_string()), None);
}

#[test]
fn index_lookup_contract() {
    let index = ChunkIndex::new(vec![
        ChunkIndexEntry { chunk_name: "c1".to_string(), offset: 0, size: 60 },
        ChunkIndexEntry { chunk_name: "c2".to_string(), offset: 60, size: 40 },
    ]);
    assert_eq!(index.lookup(&"c1".to_string()), Some((0, 60)));
    assert_eq!(index.lookup(&"c2".to_string()), Some((60, 40)));
    assert_eq!(index.lookup(&"missing".to_string()), None);
}

fn chunk(name: &str, size: u64, offset: u64) -> AssetChunk {
    AssetChunk {
        chunk_name: name.to_string(),
        chunk_size_decompressed: size,
        chunk_on_file_offset: offset,
    }
}

#[test]
fn cache_collects_every_referenced_chunk() {
    let manifest = SophonChunkProto {
        assets: vec![
            AssetGroup {
                asset_name: "a".to_string(),
                asset_size: 10,
                asset_chunks: vec![chunk("c1", 6, 0), chunk("c2", 4, 6)],
            },
            AssetGroup {
                asset_name: "b".to_string(),
                asset_size: 5,
                asset_chunks: vec![chunk("c3", 5, 0)],
            },
        ],
    };
    let cache = build_chunk_cache(&manifest);
    assert_eq!(lookup_wanted(&cache, &"c1".to_string()), Some(6));
    assert_eq!(lookup_wanted(&cache, &"c2".to_string()), Some(4));
    assert_eq!(lookup_wanted(&cache, &"c3".to_string()), Some(5));
    assert_eq!(lookup_wanted(&cache, &"c4".to_string()), None);
}

#[test]
fn cache_keeps_the_last_size_for_a_repeated_name() {
    let manifest = SophonChunkProto {
        assets: vec![
            AssetGroup {
                asset_name: "a".to_string(),
                asset_size: 10,
                asset_chunks: vec![chunk("c1", 6, 0)],
            },
            AssetGroup {
                asset_name: "b".to_string(),
                asset_size: 9,
                asset_chunks: vec![chunk("c1", 9, 0)],
            },
        ],
    };
    let cache = build_chunk_cache(&manifest);
    assert_eq!(cache.len(), 1);
    assert_eq!(lookup_wanted(&cache, &"c1".to_string()), Some(9));
}

#[test]
fn extraction_cuts_each_entry_out_of_the_blob() {
    let blob: Vec<u8> = (0..100u8).collect();
    let entries = vec![
        ChunkIndexEntry { chunk_name: "c1".to_string(), offset: 0, size: 10 },
        ChunkIndexEntry { chunk_name: "c2".to_string(), offset: 40, size: 5 },
    ];
    let staged = sophon::extract::extract_chunks(&blob, &entries);
    assert_eq!(staged.len(), 2);
    assert_eq!(staged[0].chunk_name, "c1");
    assert_eq!(staged[0].data, (0..10u8).collect::<Vec<u8>>());
    assert_eq!(staged[1].chunk_name, "c2");
    assert_eq!(staged[1].data, (40..45u8).collect::<Vec<u8>>());
}

#[test]
fn extraction_skips_entries_past_the_blob_end() {
    let blob: Vec<u8> = (0..10u8).collect();
    let entries = vec![
        ChunkIndexEntry { chunk_name: "fits".to_string(), offset: 2, size: 3 },
        ChunkIndexEntry { chunk_name: "overruns".to_string(), offset: 8, size: 5 },
    ];
    let staged = sophon::extract::extract_chunks(&blob, &entries);
    assert_eq!(staged.len(), 1);
    assert_eq!(staged[0].chunk_name, "fits");
    assert_eq!(staged[0].data, vec![2, 3, 4]);
}
