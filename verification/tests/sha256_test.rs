use war::sha256::{hex_nibble, Sha256};

#[test]
fn test_sha256_empty() {
    let mut h = Sha256::new();
    h.update(b"");
    let hex = h.finalize_hex();
    assert_eq!(&hex[..8], "e3b0c442");
}

#[test]
fn test_sha256_abc() {
    let mut h = Sha256::new();
    h.update(b"abc");
    let hex = h.finalize_hex();
    assert_eq!(&hex[..8], "ba7816bf");
    assert_eq!(hex.len(), 64);
}

#[test]
fn test_sha256_longer_message() {
    let mut h = Sha256::new();
    h.update(b"The quick brown fox jumps over the lazy dog");
    let hex = h.finalize_hex();
    assert_eq!(&hex[..8], "d7a8fbb3");
}

#[test]
fn test_sha256_multi_update() {
    let data = b"hello world";

    let mut h1 = Sha256::new();
    h1.update(data);
    let full = h1.finalize_hex();

    let mut h2 = Sha256::new();
    h2.update(b"hello");
    h2.update(b" ");
    h2.update(b"world");
    let chunked = h2.finalize_hex();

    assert_eq!(full, chunked);
}

#[test]
fn sha256_full_digests() {
    let mut h = Sha256::new();
    h.update(b"abc");
    assert_eq!(
        h.finalize_hex(),
        "ba7816bf8f01cfea414140de5dae2223b00361a396177a9cb410ff61f20015ad"
    );
    let h = Sha256::new();
    assert_eq!(
        h.finalize_hex(),
        "e3b0c44298fc1c149afbf4c8996fb92427ae41e4649b934ca495991b7852b855"
    );
}

#[test]
fn sha256_message_spanning_blocks() {
    // 56 bytes: padding needs a second block.
    let mut h = Sha256::new();
    h.update(b"abcdbcdecdefdefgefghfghighijhijkijkljklmklmnlmnomnopnopq");
    assert_eq!(
        h.finalize_hex(),
        "248d6a61d20638b8e5c026930c3e6039a33ce45964ff2167f6ecedd419db06c1"
    );
}

#[test]
fn sha256_chunked_across_block_boundary() {
    let data: Vec<u8> = (0..200u32).map(|i| (i % 251) as u8).collect();
    let mut whole = Sha256::new();
    whole.update(&data);
    let mut parts = Sha256::new();
    parts.update(&data[..63]);
    parts.update(&data[63..130]);
    parts.update(&data[130..]);
    assert_eq!(whole.finalize_hex(), parts.finalize_hex());
}

#[test]
fn hex_nibble_digits() {
    assert_eq!(hex_nibble(0), b'0');
    assert_eq!(hex_nibble(9), b'9');
    assert_eq!(hex_nibble(10), b'a');
    assert_eq!(hex_nibble(15), b'f');
}
