//! The root-key ratchet: one KDF chain advanced once per DH-ratchet step.

use vstd::prelude::*;

use crate::crypto;
use crate::crypto::hkdf_sha256;
use crate::kdf;

verus! {

/// The 64-byte output of one root-key ratchet advance: the first half is
/// the next root key, the second half the fresh chain key.
pub open spec fn root_advance(root: Seq<u8>, dh_output: Seq<u8>) -> Seq<u8> {
    hkdf_sha256(root, dh_output, kdf::ratchet_info(), 64)
}

/// The root key produced by one DH-ratchet step.
pub open spec fn advanced_root(root: Seq<u8>, dh_output: Seq<u8>) -> Seq<u8> {
    root_advance(root, dh_output).subrange(0, 32)
}

/// The chain key produced by one DH-ratchet step.
pub open spec fn advanced_chain(root: Seq<u8>, dh_output: Seq<u8>) -> Seq<u8> {
    root_advance(root, dh_output).subrange(32, 64)
}

/// A root key held by the side that performed the last DH-ratchet step.
pub struct RootKey {
    pub(crate) key: Vec<u8>,
}

/// A root key learned through a DH-ratchet step triggered by the peer.
pub struct RemoteRootKey {
    pub(crate) key: Vec<u8>,
}

impl View for RootKey {
    type V = Seq<u8>;

    closed spec fn view(&self) -> Seq<u8> {
        self.key@
    }
}

impl View for RemoteRootKey {
    type V = Seq<u8>;

    closed spec fn view(&self) -> Seq<u8> {
        self.key@
    }
}

impl RootKey {
    pub(crate) fn new(key: Vec<u8>) -> (r: Self)
        ensures
            r@ == key@,
    {
        Self { key }
    }

    pub(crate) fn as_bytes(&self) -> (r: &Vec<u8>)
        ensures
            r@ == self@,
    {
        &self.key
    }
}

impl RemoteRootKey {
    pub(crate) fn new(key: Vec<u8>) -> (r: Self)
        ensures
            r@ == key@,
    {
        Self { key }
    }

    pub(crate) fn as_bytes(&self) -> (r: &Vec<u8>)
        ensures
            r@ == self@,
    {
        &self.key
    }
}

/// One root-key ratchet advance: consumes the current root key and a
/// fresh DH output, returns the next root key and the fresh chain key.
pub(crate) fn kdf_root_advance(root: &[u8], dh_output: &[u8]) -> (r: (Vec<u8>, Vec<u8>))
    ensures
        r.0@ == advanced_root(root@, dh_output@),
        r.1@ == advanced_chain(root@, dh_output@),
        r.0@.len() == 32,
        r.1@.len() == 32,
{
    let info = kdf::ratchet_info_bytes();
    let okm = crypto::hkdf_sha256_expand(root, dh_output, info.as_slice(), 64);
    let next_root = vstd::slice::slice_to_vec(vstd::slice::slice_subrange(okm.as_slice(), 0, 32));
    let chain = vstd::slice::slice_to_vec(vstd::slice::slice_subrange(okm.as_slice(), 32, 64));
    (next_root, chain)
}

} // verus!
