//! Typed wrappers around Curve25519 key material.

use vstd::prelude::*;

use crate::crypto;
use crate::crypto::curve_base;
use crate::SessionError;

verus! {

/// A Curve25519 public key: 32 raw bytes.
pub struct Curve25519PublicKey {
    bytes: Vec<u8>,
}

impl View for Curve25519PublicKey {
    type V = Seq<u8>;

    closed spec fn view(&self) -> Seq<u8> {
        self.bytes@
    }
}

impl Curve25519PublicKey {
    /// Accepts exactly 32 bytes; anything else is an invalid key.
    pub fn from_bytes(bytes: Vec<u8>) -> (r: Result<Self, SessionError>)
        ensures
            bytes@.len() == 32 ==> r is Ok && r->Ok_0@ == bytes@,
            bytes@.len() != 32 ==> r is Err && r->Err_0 == SessionError::InvalidKey,
    {
        if bytes.len() == 32 {
            Ok(Self { bytes })
        } else {
            Err(SessionError::InvalidKey)
        }
    }

    pub fn as_bytes(&self) -> (r: &Vec<u8>)
        ensures
            r@ == self@,
    {
        &self.bytes
    }

    pub fn duplicate(&self) -> (r: Self)
        ensures
            r@ == self@,
    {
        Self { bytes: vstd::slice::slice_to_vec(self.bytes.as_slice()) }
    }
}

/// A Curve25519 secret key: 32 raw bytes.
pub struct Curve25519SecretKey {
    bytes: Vec<u8>,
}

impl View for Curve25519SecretKey {
    type V = Seq<u8>;

    closed spec fn view(&self) -> Seq<u8> {
        self.bytes@
    }
}

impl Curve25519SecretKey {
    /// A fresh secret key drawn from the system random number generator.
    pub fn generate() -> (r: Self)
        ensures
            r@.len() == 32,
    {
        Self { bytes: crypto::random_secret_bytes() }
    }

    /// Accepts exactly 32 bytes; anything else is an invalid key.
    pub fn from_bytes(bytes: Vec<u8>) -> (r: Result<Self, SessionError>)
        ensures
            bytes@.len() == 32 ==> r is Ok && r->Ok_0@ == bytes@,
            bytes@.len() != 32 ==> r is Err && r->Err_0 == SessionError::InvalidKey,
    {
        if bytes.len() == 32 {
            Ok(Self { bytes })
        } else {
            Err(SessionError::InvalidKey)
        }
    }

    /// The public key that belongs to this secret key.
    pub fn public_key(&self) -> (r: Curve25519PublicKey)
        requires
            self@.len() == 32,
        ensures
            r@ == curve_base(self@),
            r@.len() == 32,
    {
        let bytes = crypto::curve25519_base(self.bytes.as_slice());
        Curve25519PublicKey { bytes }
    }

    pub(crate) fn as_bytes(&self) -> (r: &Vec<u8>)
        ensures
            r@ == self@,
    {
        &self.bytes
    }
}

/// The view of a [`SessionKeys`] value: the three public keys the
/// initiator announces until the responder proves receipt.
#[verifier::ext_equal]
pub ghost struct SessionKeysV {
    pub identity: Seq<u8>,
    pub ephemeral: Seq<u8>,
    pub one_time: Seq<u8>,
}

/// Snapshot of the public keys of the initial key agreement, embedded in
/// outgoing pre-key messages until the peer has proven receipt.
pub struct SessionKeys {
    pub(crate) identity_key: Curve25519PublicKey,
    pub(crate) ephemeral_key: Curve25519PublicKey,
    pub(crate) one_time_key: Curve25519PublicKey,
}

impl View for SessionKeys {
    type V = SessionKeysV;

    closed spec fn view(&self) -> SessionKeysV {
        SessionKeysV {
            identity: self.identity_key@,
            ephemeral: self.ephemeral_key@,
            one_time: self.one_time_key@,
        }
    }
}

impl SessionKeys {
    pub open spec fn wf(&self) -> bool {
        self@.identity.len() == 32 && self@.ephemeral.len() == 32 && self@.one_time.len() == 32
    }

    pub fn new(
        identity_key: Curve25519PublicKey,
        ephemeral_key: Curve25519PublicKey,
        one_time_key: Curve25519PublicKey,
    ) -> (r: Self)
        ensures
            r@ == (SessionKeysV {
                identity: identity_key@,
                ephemeral: ephemeral_key@,
                one_time: one_time_key@,
            }),
    {
        Self { identity_key, ephemeral_key, one_time_key }
    }

    pub fn identity_key(&self) -> (r: &Curve25519PublicKey)
        ensures
            r@ == self@.identity,
    {
        &self.identity_key
    }

    pub fn ephemeral_key(&self) -> (r: &Curve25519PublicKey)
        ensures
            r@ == self@.ephemeral,
    {
        &self.ephemeral_key
    }

    pub fn one_time_key(&self) -> (r: &Curve25519PublicKey)
        ensures
            r@ == self@.one_time,
    {
        &self.one_time_key
    }
}

} // verus!
