use s3_ingest::data::Uuid;
use s3_ingest::digest::{blake2sum, md5sum, sha256sum};
use s3_ingest::encoding::hex_uuid;

fn hex(bytes: &[u8]) -> String {
    bytes.iter().map(|b| format!("{:02x}", b)).collect()
}

#[test]
fn md5_of_known_inputs() {
    assert_eq!(hex(&md5sum(b"hello")), "5d41402abc4b2a76b9719d911017c592");
    assert_eq!(hex(&md5sum(b"")), "d41d8cd98f00b204e9800998ecf8427e");
    assert_eq!(hex(&md5sum(b"hello world")), "5eb63bbbe01eeed093cb22bb8f5acdc3");
}

#[test]
fn sha256_of_known_inputs() {
    assert_eq!(
        hex(&sha256sum(b"").bytes),
        "e3b0c44298fc1c149afbf4c8996fb92427ae41e4649b934ca495991b7852b855"
    );
    assert_eq!(
        hex(&sha256sum(b"hello").bytes),
        "2cf24dba5fb0a30e26e83b2ac5b9e29e1b161e5c1fa7425e73043362938b9824"
    );
}

#[test]
fn blake2b_256_of_known_inputs() {
    assert_eq!(
        hex(&blake2sum(b"").bytes),
        "0e5751c026e543b2e8ab2eb06099daa1d1e5df47778f7787faab45cdf12fe3a8"
    );
    assert_eq!(
        hex(&blake2sum(b"abc").bytes),
        "bddd813c634239723171ef3fee98579b94964e3bb1cb3e427262c8c068d52319"
    );
    assert_ne!(blake2sum(b"abc"), blake2sum(b"abd"));
}

#[test]
fn identifiers_compare_by_their_bytes() {
    let mut a = [0u8; 16];
    let mut b = [0u8; 16];
    a[15] = 1;
    b[0] = 1;
    let (a, b) = (Uuid::new(a), Uuid::new(b));
    assert!(a.lt(&b));
    assert!(!b.lt(&a));
    assert!(!a.lt(&a));
    assert!(a == a);
    assert!(a != b);
    assert_eq!(s3_ingest::data::Hash::new([3; 32]), s3_ingest::data::Hash::new([3; 32]));
    assert_ne!(s3_ingest::data::Hash::new([3; 32]), s3_ingest::data::Hash::new([4; 32]));
}

#[test]
fn identifiers_in_hexadecimal() {
    let mut bytes = [0u8; 16];
    for i in 0..16 {
        bytes[i] = (i * 17) as u8;
    }
    assert_eq!(hex_uuid(&Uuid::new(bytes)), "00112233445566778899aabbccddeeff");
    assert_eq!(hex_uuid(&Uuid::new([0xa5; 16])), "a5".repeat(16));
}
