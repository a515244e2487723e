use rust_worker::config::HashAlgorithm;
use rust_worker::digest::{compute_hash, StreamingDigest};

fn hex(bytes: &[u8]) -> String {
    let mut out = String::new();
    for byte in bytes {
        out.push_str(&format!("{:02x}", byte));
    }
    out
}

#[test]
fn sha256_of_known_inputs() {
    let (digest, total) = compute_hash(HashAlgorithm::Sha256, &vec![b"abc".to_vec()]);
    assert_eq!(hex(&digest), "ba7816bf8f01cfea414140de5dae2223b00361a396177a9cb410ff61f20015ad");
    assert_eq!(total, 3);
    let (empty, none) = compute_hash(HashAlgorithm::Sha256, &vec![]);
    assert_eq!(hex(&empty), "e3b0c44298fc1c149afbf4c8996fb92427ae41e4649b934ca495991b7852b855");
    assert_eq!(none, 0);
}

#[test]
fn blake3_of_known_inputs() {
    let (empty, none) = compute_hash(HashAlgorithm::Blake3, &vec![]);
    assert_eq!(hex(&empty), "af1349b9f5f9a1a6a0404dea36dcc9499bcb25c9adc112b7cc9a93cae41f3262");
    assert_eq!(none, 0);
    let (digest, total) = compute_hash(HashAlgorithm::Blake3, &vec![b"abc".to_vec()]);
    assert_eq!(hex(&digest), "6437b3ac38465133ffb63b75273a8db548c558465d79db03fd359c6cd5bd9d85");
    assert_eq!(digest, blake3::hash(b"abc").as_bytes().to_vec());
    assert_eq!(total, 3);
}

#[test]
fn digest_does_not_depend_on_how_the_input_is_cut() {
    for algorithm in [HashAlgorithm::Blake3, HashAlgorithm::Sha256] {
        let whole = compute_hash(algorithm, &vec![b"hello, world".to_vec()]);
        let cut = compute_hash(
            algorithm,
            &vec![b"hel".to_vec(), Vec::new(), b"lo, w".to_vec(), b"orld".to_vec()],
        );
        assert_eq!(whole, cut);
        assert_eq!(whole.0.len(), 32);
        assert_eq!(whole.1, 12);

        let mut streaming = StreamingDigest::new(algorithm);
        streaming.update(b"hello, ");
        assert_eq!(streaming.total_bytes(), 7);
        streaming.update(b"world");
        assert_eq!(streaming.total_bytes(), 12);
        assert_eq!(streaming.finish(), whole);
    }
}

#[test]
fn the_two_algorithms_differ_and_inputs_matter() {
    let blake = compute_hash(HashAlgorithm::Blake3, &vec![b"abc".to_vec()]).0;
    let sha = compute_hash(HashAlgorithm::Sha256, &vec![b"abc".to_vec()]).0;
    assert_ne!(blake, sha);
    assert_ne!(blake, b"abc".to_vec());
    assert_ne!(sha, compute_hash(HashAlgorithm::Sha256, &vec![b"abd".to_vec()]).0);
    assert_ne!(blake, compute_hash(HashAlgorithm::Blake3, &vec![b"abd".to_vec()]).0);
}
