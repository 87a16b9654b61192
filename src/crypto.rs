//! Digest and signature values handed to the crypto capability.
//!
//! The kernel treats both as opaque fixed-width values; no cryptographic
//! algorithm lives here.

use vstd::prelude::*;

verus! {

/// Width of a digest in bytes.
pub const HASH_LEN: usize = 32;

/// Width of a signature in bytes.
pub const SIGNATURE_LEN: usize = 64;

/// The digest of `bytes`: its first `HASH_LEN` bytes, zero-padded to `HASH_LEN`.
pub open spec fn digest_of(bytes: Seq<u8>) -> Seq<u8> {
    Seq::new(HASH_LEN as nat, |i: int| if i < bytes.len() { bytes[i] } else { 0u8 })
}

/// The placeholder signature: `SIGNATURE_LEN` zero bytes.
pub open spec fn blank_signature() -> Seq<u8> {
    Seq::new(SIGNATURE_LEN as nat, |i: int| 0u8)
}

/// A fixed-width digest.
#[derive(Debug, Clone, Copy)]
pub struct Hash([u8; 32]);

impl View for Hash {
    type V = Seq<u8>;

    closed spec fn view(&self) -> Seq<u8> {
        self.0@
    }
}

impl Hash {
    /// Builds a digest from raw bytes: the first 32 bytes, zero-padded.
    pub fn from_bytes(bytes: &[u8]) -> (r: Hash)
        ensures
            r@ == digest_of(bytes@),
    {
        let mut hash = [0u8; 32];
        let len = if bytes.len() < HASH_LEN {
            bytes.len()
        } else {
            HASH_LEN
        };
        let mut i: usize = 0;
        while i < len
            invariant
                len <= HASH_LEN,
                len <= bytes@.len(),
                i <= len,
                hash@.len() == HASH_LEN,
                forall|k: int| 0 <= k < i ==> hash@[k] == bytes@[k],
                forall|k: int| i <= k < HASH_LEN ==> hash@[k] == 0u8,
            decreases len - i,
        {
            hash[i] = bytes[i];
            i = i + 1;
        }
        let r = Hash(hash);
        assert(r@ =~= digest_of(bytes@));
        r
    }

    /// The digest's bytes.
    pub fn bytes(&self) -> (r: [u8; 32])
        ensures
            r@ == self@,
    {
        self.0
    }
}

/// A signature produced by the signing capability.
#[derive(Debug, Clone)]
pub struct Signature(Vec<u8>);

impl View for Signature {
    type V = Seq<u8>;

    closed spec fn view(&self) -> Seq<u8> {
        self.0@
    }
}

/// `SIGNATURE_LEN` zero bytes.
fn blank_bytes() -> (r: Vec<u8>)
    ensures
        r@ == blank_signature(),
{
    let mut v: Vec<u8> = Vec::new();
    let mut i: usize = 0;
    while i < SIGNATURE_LEN
        invariant
            i <= SIGNATURE_LEN,
            v@.len() == i,
            forall|k: int| 0 <= k < i ==> v@[k] == 0u8,
        decreases SIGNATURE_LEN - i,
    {
        v.push(0u8);
        i = i + 1;
    }
    assert(v@ =~= blank_signature());
    v
}

impl Signature {
    /// The verification key of the oracle; a blank key until a signing
    /// capability is plugged in.
    pub fn generate_key() -> (r: Signature)
        ensures
            r@ == blank_signature(),
    {
        Signature(blank_bytes())
    }

    /// Signs `data` with this key; yields the blank signature whatever the data.
    pub fn sign(&self, data: &str) -> (r: Signature)
        ensures
            r@ == blank_signature(),
    {
        Signature(blank_bytes())
    }

    /// The signature's bytes.
    pub fn bytes(&self) -> (r: &Vec<u8>)
        ensures
            r@ == self@,
    {
        &self.0
    }
}

} // verus!
