use sync_engine::protocol::codec::SyncCodec;

#[test]
fn test_chunk_data() {
    let codec = SyncCodec::new(3, 3, 100);
    let data = vec![0u8; 250];
    let chunks = codec.chunk_data(&data);
    assert_eq!(chunks.len(), 3);
    assert_eq!(chunks[0].len(), 100);
    assert_eq!(chunks[1].len(), 100);
    assert_eq!(chunks[2].len(), 50);
}

#[test]
fn test_compress_decompress_roundtrip() {
    let codec = SyncCodec::new(3, 3, 1024 * 1024);
    let data = b"Hello, INWP Sync Engine! This is test data for compression.";
    let compressed = codec.compress_delta(data).unwrap();
    let decompressed = codec.decompress(&compressed).unwrap();
    assert_eq!(data.to_vec(), decompressed);
}

#[test]
fn test_compression_ratio_reasonable() {
    let codec = SyncCodec::new(19, 3, 1024 * 1024);
    let data = vec![b'A'; 10_000];
    let compressed = codec.compress_full(&data).unwrap();
    let ratio = compressed.len() as f64 / data.len() as f64;
    assert!(ratio < 0.5, "Highly repetitive data should compress well");
}
