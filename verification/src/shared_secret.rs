//! Initial shared-secret establishment: the triple Diffie-Hellman
//! combination of identity, ephemeral and one-time keys.

use vstd::prelude::*;

use crate::chain_key::{ChainKey, RemoteChainKey};
use crate::crypto;
use crate::crypto::{curve_base, curve_mul, hkdf_sha256};
use crate::kdf;
use crate::keys::{Curve25519PublicKey, Curve25519SecretKey};
use crate::root_key::{RemoteRootKey, RootKey};

verus! {

/// The initiator's triple-DH combination: DH(identity, peer one-time) ||
/// DH(ephemeral, peer identity) || DH(ephemeral, peer one-time).
pub open spec fn triple_dh_initiator(
    identity: Seq<u8>,
    ephemeral: Seq<u8>,
    peer_identity: Seq<u8>,
    peer_one_time: Seq<u8>,
) -> Seq<u8> {
    curve_mul(identity, peer_one_time) + curve_mul(ephemeral, peer_identity) + curve_mul(
        ephemeral,
        peer_one_time,
    )
}

/// The responder's triple-DH combination: DH(one-time, peer identity) ||
/// DH(identity, peer ephemeral) || DH(one-time, peer ephemeral).
pub open spec fn triple_dh_responder(
    identity: Seq<u8>,
    one_time: Seq<u8>,
    peer_identity: Seq<u8>,
    peer_ephemeral: Seq<u8>,
) -> Seq<u8> {
    curve_mul(one_time, peer_identity) + curve_mul(identity, peer_ephemeral) + curve_mul(
        one_time,
        peer_ephemeral,
    )
}

/// Expanding a shared secret yields 64 bytes: the initial root key
/// followed by the initial chain key.
pub open spec fn shared_expansion(secret: Seq<u8>) -> Seq<u8> {
    hkdf_sha256(Seq::<u8>::empty(), secret, kdf::root_info(), 64)
}

pub open spec fn initial_root(secret: Seq<u8>) -> Seq<u8> {
    shared_expansion(secret).subrange(0, 32)
}

pub open spec fn initial_chain(secret: Seq<u8>) -> Seq<u8> {
    shared_expansion(secret).subrange(32, 64)
}

/// The initiator's X3DH output.
pub struct Shared3DHSecret {
    bytes: Vec<u8>,
}

/// The responder's X3DH output.
pub struct RemoteShared3DHSecret {
    bytes: Vec<u8>,
}

impl View for Shared3DHSecret {
    type V = Seq<u8>;

    closed spec fn view(&self) -> Seq<u8> {
        self.bytes@
    }
}

impl View for RemoteShared3DHSecret {
    type V = Seq<u8>;

    closed spec fn view(&self) -> Seq<u8> {
        self.bytes@
    }
}

impl Shared3DHSecret {
    /// The initiator's side of the key agreement.  The last clause is the
    /// agreement law: whenever the two peer public keys are the public
    /// keys of some responder scalars, the responder's combination of
    /// those scalars with our public keys yields the same bytes.
    pub fn new(
        identity_key: &Curve25519SecretKey,
        ephemeral_key: &Curve25519SecretKey,
        peer_identity_key: &Curve25519PublicKey,
        peer_one_time_key: &Curve25519PublicKey,
    ) -> (r: Self)
        requires
            identity_key@.len() == 32,
            ephemeral_key@.len() == 32,
            peer_identity_key@.len() == 32,
            peer_one_time_key@.len() == 32,
        ensures
            r@ == triple_dh_initiator(
                identity_key@,
                ephemeral_key@,
                peer_identity_key@,
                peer_one_time_key@,
            ),
            r@.len() == 96,
            forall|peer_identity: Seq<u8>, peer_one_time: Seq<u8>|
                peer_identity_key@ == curve_base(peer_identity) && peer_one_time_key@
                    == curve_base(peer_one_time) ==> r@ == triple_dh_responder(
                    peer_identity,
                    peer_one_time,
                    curve_base(identity_key@),
                    curve_base(ephemeral_key@),
                ),
    {
        let first = crypto::curve25519_dh(
            identity_key.as_bytes().as_slice(),
            peer_one_time_key.as_bytes().as_slice(),
        );
        let second = crypto::curve25519_dh(
            ephemeral_key.as_bytes().as_slice(),
            peer_identity_key.as_bytes().as_slice(),
        );
        let third = crypto::curve25519_dh(
            ephemeral_key.as_bytes().as_slice(),
            peer_one_time_key.as_bytes().as_slice(),
        );
        let mut bytes = first;
        bytes.extend_from_slice(second.as_slice());
        bytes.extend_from_slice(third.as_slice());
        Self { bytes }
    }

    /// The raw shared-secret bytes.
    pub fn as_bytes(&self) -> (r: &Vec<u8>)
        ensures
            r@ == self@,
    {
        &self.bytes
    }

    /// Consumes the secret and seeds the initiator's first ratchet.
    pub fn expand(self) -> (r: (RootKey, ChainKey))
        ensures
            r.0@ == initial_root(self@),
            r.1@.key == initial_chain(self@),
            r.1@.index == 0,
            r.0@.len() == 32,
            r.1@.key.len() == 32,
    {
        let (root, chain) = expand_secret(self.bytes.as_slice());
        (RootKey::new(root), ChainKey::new(chain))
    }
}

impl RemoteShared3DHSecret {
    /// The responder's side of the key agreement.
    pub fn new(
        identity_key: &Curve25519SecretKey,
        one_time_key: &Curve25519SecretKey,
        peer_identity_key: &Curve25519PublicKey,
        peer_ephemeral_key: &Curve25519PublicKey,
    ) -> (r: Self)
        requires
            identity_key@.len() == 32,
            one_time_key@.len() == 32,
            peer_identity_key@.len() == 32,
            peer_ephemeral_key@.len() == 32,
        ensures
            r@ == triple_dh_responder(
                identity_key@,
                one_time_key@,
                peer_identity_key@,
                peer_ephemeral_key@,
            ),
            r@.len() == 96,
    {
        let first = crypto::curve25519_dh(
            one_time_key.as_bytes().as_slice(),
            peer_identity_key.as_bytes().as_slice(),
        );
        let second = crypto::curve25519_dh(
            identity_key.as_bytes().as_slice(),
            peer_ephemeral_key.as_bytes().as_slice(),
        );
        let third = crypto::curve25519_dh(
            one_time_key.as_bytes().as_slice(),
            peer_ephemeral_key.as_bytes().as_slice(),
        );
        let mut bytes = first;
        bytes.extend_from_slice(second.as_slice());
        bytes.extend_from_slice(third.as_slice());
        Self { bytes }
    }

    /// The raw shared-secret bytes.
    pub fn as_bytes(&self) -> (r: &Vec<u8>)
        ensures
            r@ == self@,
    {
        &self.bytes
    }

    /// Consumes the secret and seeds the responder's first ratchet.
    pub fn expand(self) -> (r: (RemoteRootKey, RemoteChainKey))
        ensures
            r.0@ == initial_root(self@),
            r.1@.key == initial_chain(self@),
            r.1@.index == 0,
            r.0@.len() == 32,
            r.1@.key.len() == 32,
    {
        let (root, chain) = expand_secret(self.bytes.as_slice());
        (RemoteRootKey::new(root), RemoteChainKey::new(chain))
    }
}

fn expand_secret(secret: &[u8]) -> (r: (Vec<u8>, Vec<u8>))
    ensures
        r.0@ == initial_root(secret@),
        r.1@ == initial_chain(secret@),
        r.0@.len() == 32,
        r.1@.len() == 32,
{
    let salt: Vec<u8> = Vec::new();
    let info = kdf::root_info_bytes();
    assert(salt@ =~= Seq::<u8>::empty());
    let okm = crypto::hkdf_sha256_expand(salt.as_slice(), secret, info.as_slice(), 64);
    let root = vstd::slice::slice_to_vec(vstd::slice::slice_subrange(okm.as_slice(), 0, 32));
    let chain = vstd::slice::slice_to_vec(vstd::slice::slice_subrange(okm.as_slice(), 32, 64));
    (root, chain)
}

} // verus!
