//! MD5, SHA-256 and BLAKE2b-256 digests, one-shot and streaming.
use crate::data;
use vstd::prelude::*;

verus! {

/// The MD5 digest of a byte string.
pub uninterp spec fn md5_of(data: Seq<u8>) -> Seq<u8>;

/// The SHA-256 digest of a byte string.
pub uninterp spec fn sha256_of(data: Seq<u8>) -> Seq<u8>;

/// The BLAKE2b digest of 256 bits of a byte string.
pub uninterp spec fn blake2_of(data: Seq<u8>) -> Seq<u8>;

/// A running MD5 computation: an `md5::Md5` of the `md-5` library. What it
/// has taken in is known by [`md5_absorbed`].
#[verifier::external_body]
pub struct Md5Hasher {
    inner: md5::Md5,
}

/// A running SHA-256 computation: a `sha2::Sha256` of the `sha2` library.
/// What it has taken in is known by [`sha256_absorbed`].
#[verifier::external_body]
pub struct Sha256Hasher {
    inner: sha2::Sha256,
}

/// The bytes that a running MD5 computation has taken in so far, in order.
pub uninterp spec fn md5_absorbed(h: Md5Hasher) -> Seq<u8>;

/// The bytes that a running SHA-256 computation has taken in so far, in order.
pub uninterp spec fn sha256_absorbed(h: Sha256Hasher) -> Seq<u8>;

impl Md5Hasher {
    /// `md5::Digest::new` for `Md5`: a computation that has taken in nothing.
    #[verifier::external_body]
    pub(crate) fn new() -> (h: Md5Hasher)
        ensures
            md5_absorbed(h) == Seq::<u8>::empty(),
    {
        Md5Hasher { inner: md5::Digest::new() }
    }

    /// `md5::Digest::update` for `Md5`: the data follow what was taken in.
    #[verifier::external_body]
    pub(crate) fn update(&mut self, data: &[u8])
        ensures
            md5_absorbed(*final(self)) == md5_absorbed(*old(self)) + data@,
    {
        md5::Digest::update(&mut self.inner, data)
    }

    /// `md5::Digest::finalize` for `Md5`: the digest of all that was taken in.
    #[verifier::external_body]
    pub(crate) fn finalize(self) -> (r: [u8; 16])
        ensures
            r@ == md5_of(md5_absorbed(self)),
    {
        md5::Digest::finalize(self.inner).into()
    }
}

impl Sha256Hasher {
    /// `sha2::Digest::new` for `Sha256`: a computation that has taken in
    /// nothing.
    #[verifier::external_body]
    pub(crate) fn new() -> (h: Sha256Hasher)
        ensures
            sha256_absorbed(h) == Seq::<u8>::empty(),
    {
        Sha256Hasher { inner: sha2::Digest::new() }
    }

    /// `sha2::Digest::update` for `Sha256`: the data follow what was taken in.
    #[verifier::external_body]
    pub(crate) fn update(&mut self, data: &[u8])
        ensures
            sha256_absorbed(*final(self)) == sha256_absorbed(*old(self)) + data@,
    {
        sha2::Digest::update(&mut self.inner, data)
    }

    /// `sha2::Digest::finalize` for `Sha256`: the digest of all that was taken
    /// in.
    #[verifier::external_body]
    pub(crate) fn finalize(self) -> (r: data::Hash)
        ensures
            r@ == sha256_of(sha256_absorbed(self)),
    {
        data::Hash { bytes: sha2::Digest::finalize(self.inner).into() }
    }
}

/// `blake2::Digest::digest` for `Blake2b` with an output of 32 bytes.
#[verifier::external_body]
pub(crate) fn blake2_digest(data: &[u8]) -> (r: data::Hash)
    ensures
        r@ == blake2_of(data@),
{
    let digest = <blake2::Blake2b<blake2::digest::consts::U32> as blake2::Digest>::digest(data);
    data::Hash { bytes: digest.into() }
}

/// The MD5 digest of `data`.
pub fn md5sum(data: &[u8]) -> (r: [u8; 16])
    ensures
        r@ == md5_of(data@),
{
    let mut h = Md5Hasher::new();
    h.update(data);
    h.finalize()
}

/// The SHA-256 digest of `data`.
pub fn sha256sum(data: &[u8]) -> (r: data::Hash)
    ensures
        r@ == sha256_of(data@),
{
    let mut h = Sha256Hasher::new();
    h.update(data);
    h.finalize()
}

/// The BLAKE2b-256 digest of `data`, by which a block is addressed.
pub fn blake2sum(data: &[u8]) -> (r: data::Hash)
    ensures
        r@ == blake2_of(data@),
{
    blake2_digest(data)
}

} // verus!
