//! Content hashes of byte strings, as lower-case hexadecimal text.

use vstd::prelude::*;
use crate::config::HashAlgorithm as Algorithm;

verus! {

/// The BLAKE3 digest of `data` in lower-case hexadecimal.
pub uninterp spec fn blake3_hex(data: Seq<u8>) -> Seq<char>;

/// The SHA-256 digest of `data` in lower-case hexadecimal.
pub uninterp spec fn sha256_hex(data: Seq<u8>) -> Seq<char>;

/// Relies on `blake3::hash` and `blake3::Hash::to_hex`: the 32-byte digest
/// of the bytes, two hex digits per byte.
#[verifier::external_body]
fn blake3_digest(data: &[u8]) -> (r: String)
    ensures
        r@ == blake3_hex(data@),
        r@.len() == 64,
{
    blake3::hash(data).to_hex().to_string()
}

/// Relies on `sha2::Sha256` through `digest::Digest::digest` and the
/// `LowerHex` impl of its output: the 32-byte digest of the bytes, two hex
/// digits per byte.
#[verifier::external_body]
fn sha256_digest(data: &[u8]) -> (r: String)
    ensures
        r@ == sha256_hex(data@),
        r@.len() == 64,
{
    format!("{:x}", <sha2::Sha256 as sha2::Digest>::digest(data))
}

/// A content hash.
pub trait HashAlgorithm {
    /// The hash of `data`, as text.
    spec fn digest(&self, data: Seq<u8>) -> Seq<char>;

    /// Hashes `data`.
    fn hash_bytes(&self, data: &[u8]) -> (r: String)
        ensures
            r@ == self.digest(data@),
    ;
}

/// BLAKE3: fast, the default for comparing files.
pub struct Blake3Hash;

impl HashAlgorithm for Blake3Hash {
    open spec fn digest(&self, data: Seq<u8>) -> Seq<char> {
        blake3_hex(data)
    }

    fn hash_bytes(&self, data: &[u8]) -> (r: String) {
        blake3_digest(data)
    }
}

/// SHA-256: slower, widely known.
pub struct Sha256Hash;

impl HashAlgorithm for Sha256Hash {
    open spec fn digest(&self, data: Seq<u8>) -> Seq<char> {
        sha256_hex(data)
    }

    fn hash_bytes(&self, data: &[u8]) -> (r: String) {
        sha256_digest(data)
    }
}

/// A hasher with a chosen algorithm.
pub struct FileHasher {
    pub algorithm: Algorithm,
}

impl FileHasher {
    pub fn new_blake3() -> (r: Self)
        ensures
            r.algorithm == Algorithm::Blake3,
    {
        FileHasher { algorithm: Algorithm::Blake3 }
    }

    pub fn new_sha256() -> (r: Self)
        ensures
            r.algorithm == Algorithm::Sha256,
    {
        FileHasher { algorithm: Algorithm::Sha256 }
    }

    /// The hash of `data` under this hasher's algorithm.
    pub open spec fn digest(&self, data: Seq<u8>) -> Seq<char> {
        match self.algorithm {
            Algorithm::Blake3 => blake3_hex(data),
            Algorithm::Sha256 => sha256_hex(data),
        }
    }

    /// Hashes `data`: 64 hex digits.
    pub fn hash_bytes(&self, data: &[u8]) -> (r: String)
        ensures
            r@ == self.digest(data@),
            r@.len() == 64,
    {
        match self.algorithm {
            Algorithm::Blake3 => blake3_digest(data),
            Algorithm::Sha256 => sha256_digest(data),
        }
    }
}

/// Hashing is a function of the bytes: hashing the same bytes twice gives
/// the same text, under either algorithm.
pub proof fn hashing_is_consistent(h: FileHasher, data: Seq<u8>, again: Seq<u8>)
    requires
        again == data,
    ensures
        h.digest(data) == h.digest(again),
{
}

} // verus!
