use privoxy::compression::{
    compress, compress_deflate, compress_gzip, decompress, decompress_deflate, decompress_gzip, CompressionAlgorithm,
    COMPRESSION_LEVEL_DEFAULT,
};

#[test]
fn test_compress_deflate() {
    let data = b"Hello, World! This is a test string that should compress well. It needs to be long enough so that compression is actually effective and the output is smaller than the input, considering header overhead. Let's add more data here to be sure.";
    let compressed = compress_deflate(data, COMPRESSION_LEVEL_DEFAULT).unwrap();
    assert!(compressed.len() < data.len());
}

#[test]
fn test_compress_gzip() {
    let data = b"Hello, World! This is a test string that should compress well. It needs to be long enough so that compression is actually effective and the output is smaller than the input, considering header overhead. Let's add more data here to be sure.";
    let compressed = compress_gzip(data, COMPRESSION_LEVEL_DEFAULT).unwrap();
    assert!(compressed.len() > 0);
}

#[test]
fn test_decompress_deflate() {
    let data = b"Hello, World!";
    let compressed = compress_deflate(data, COMPRESSION_LEVEL_DEFAULT).unwrap();
    let decompressed = decompress_deflate(&compressed).unwrap();
    assert_eq!(decompressed.as_slice(), data.as_slice());
}

#[test]
fn test_decompress_gzip() {
    let data = b"Hello, World!";
    let compressed = compress_gzip(data, COMPRESSION_LEVEL_DEFAULT).unwrap();
    let decompressed = decompress_gzip(&compressed).unwrap();
    assert_eq!(decompressed.as_slice(), data.as_slice());
}

#[test]
fn test_compression_algorithm() {
    assert_eq!(CompressionAlgorithm::from_str("deflate"), Some(CompressionAlgorithm::Deflate));
    assert_eq!(CompressionAlgorithm::from_str("gzip"), Some(CompressionAlgorithm::Gzip));
    assert_eq!(CompressionAlgorithm::from_str("none"), Some(CompressionAlgorithm::Identity));
    assert_eq!(CompressionAlgorithm::from_str("unknown"), None);
}

#[test]
fn identity_passes_data_through() {
    let data = b"Hello, World!";
    assert_eq!(compress(data, CompressionAlgorithm::Identity, COMPRESSION_LEVEL_DEFAULT).unwrap(), data.to_vec());
    assert_eq!(decompress(data, CompressionAlgorithm::Identity).unwrap(), data.to_vec());
    let packed = compress(data, CompressionAlgorithm::Gzip, COMPRESSION_LEVEL_DEFAULT).unwrap();
    assert_ne!(packed, data.to_vec());
    assert_eq!(decompress(&packed, CompressionAlgorithm::Gzip).unwrap(), data.to_vec());
    assert!(decompress(b"not gzip", CompressionAlgorithm::Gzip).is_err());
}
