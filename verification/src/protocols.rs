//! The media protocols: each carries an expected content digest and checks
//! candidate content against it. Decoding and streaming of the media itself
//! is outside the core.

use vstd::prelude::*;

use crate::digest::{digest_eq, sha256, sha256_of};
use crate::types::Sha256;

verus! {

/// A protocol that commits to a content digest and checks content against it.
pub trait MediaProtocol {
    /// The committed digest.
    spec fn hash_spec(&self) -> Sha256;

    /// Whether the data's digest is the given one.
    fn verify(&self, data: Vec<u8>, hash: Sha256) -> (r: bool)
        ensures
            r == (sha256_of(data@) == hash.0@),
    ;

    /// Reads the committed digest back.
    fn get_hash(&self) -> (r: Sha256)
        ensures
            r == self.hash_spec(),
    ;
}

/// Still-image content behind a digest commitment.
pub struct ImageProtocol {
    /// The committed content digest.
    pub hash: Sha256,
}

impl MediaProtocol for ImageProtocol {
    open spec fn hash_spec(&self) -> Sha256 {
        self.hash
    }

    fn verify(&self, data: Vec<u8>, hash: Sha256) -> (r: bool)
        ensures
            r == (sha256_of(data@) == hash.0@),
    {
        let d = sha256(&data);
        digest_eq(&d, &hash)
    }

    fn get_hash(&self) -> (r: Sha256)
        ensures
            r == self.hash_spec(),
    {
        self.hash
    }
}

/// Video content behind a digest commitment.
pub struct VideoProtocol {
    /// The committed content digest.
    pub hash: Sha256,
}

impl MediaProtocol for VideoProtocol {
    open spec fn hash_spec(&self) -> Sha256 {
        self.hash
    }

    fn verify(&self, data: Vec<u8>, hash: Sha256) -> (r: bool)
        ensures
            r == (sha256_of(data@) == hash.0@),
    {
        let d = sha256(&data);
        digest_eq(&d, &hash)
    }

    fn get_hash(&self) -> (r: Sha256)
        ensures
            r == self.hash_spec(),
    {
        self.hash
    }
}

/// Audio content behind a digest commitment.
pub struct AudioProtocol {
    /// The committed content digest.
    pub hash: Sha256,
}

impl MediaProtocol for AudioProtocol {
    open spec fn hash_spec(&self) -> Sha256 {
        self.hash
    }

    fn verify(&self, data: Vec<u8>, hash: Sha256) -> (r: bool)
        ensures
            r == (sha256_of(data@) == hash.0@),
    {
        let d = sha256(&data);
        digest_eq(&d, &hash)
    }

    fn get_hash(&self) -> (r: Sha256)
        ensures
            r == self.hash_spec(),
    {
        self.hash
    }
}

/// Document content behind a digest commitment.
pub struct DocProtocol {
    /// The committed content digest.
    pub hash: Sha256,
}

impl MediaProtocol for DocProtocol {
    open spec fn hash_spec(&self) -> Sha256 {
        self.hash
    }

    fn verify(&self, data: Vec<u8>, hash: Sha256) -> (r: bool)
        ensures
            r == (sha256_of(data@) == hash.0@),
    {
        let d = sha256(&data);
        digest_eq(&d, &hash)
    }

    fn get_hash(&self) -> (r: Sha256)
        ensures
            r == self.hash_spec(),
    {
        self.hash
    }
}

} // verus!
