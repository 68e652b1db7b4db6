use sophon::codec::{decompress_manifest, ManifestDecodeError};

#[test]
fn round_trip_through_a_real_zstd_frame() {
    let plain: Vec<u8> = (0..255u8).cycle().take(10_000).collect();
    let frame = zstd::stream::encode_all(&plain[..], 3).expect("compression failed");
    assert_ne!(frame, plain);
    let decoded = decompress_manifest(&frame).expect("decompression failed");
    assert_eq!(decoded, plain);
}

#[test]
fn empty_payload_round_trips() {
    let frame = zstd::stream::encode_all(&b""[..], 3).expect("compression failed");
    let decoded = decompress_manifest(&frame).expect("decompression failed");
    assert_eq!(decoded, Vec::<u8>::new());
}

#[test]
fn bytes_without_the_frame_magic_are_rejected() {
    assert_eq!(decompress_manifest(b""), Err(ManifestDecodeError::NotZstd));
    assert_eq!(decompress_manifest(b"\x28\xb5\x2f"), Err(ManifestDecodeError::NotZstd));
    assert_eq!(decompress_manifest(b"plain text"), Err(ManifestDecodeError::NotZstd));
}

#[test]
fn a_damaged_frame_is_reported_corrupted() {
    assert_eq!(
        decompress_manifest(b"\x28\xb5\x2f\xfd\x00\x00"),
        Err(ManifestDecodeError::Corrupted)
    );
    let plain = vec![7u8; 4096];
    let mut frame = zstd::stream::encode_all(&plain[..], 3).expect("compression failed");
    let len = frame.len();
    frame.truncate(len / 2);
    assert_eq!(decompress_manifest(&frame), Err(ManifestDecodeError::Corrupted));
}
