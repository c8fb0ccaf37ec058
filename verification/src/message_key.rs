//! Message-key derivation and authenticated encryption.
//!
//! The per-message seed from the chain-key ratchet is expanded into an
//! AES-256 key, an HMAC key and an IV.  A wire message is the encoded
//! body followed by the first 8 bytes of the HMAC tag over that body.

use vstd::prelude::*;

use crate::crypto;
use crate::crypto::{aes256_cbc_encrypt, hkdf_sha256, hmac_sha256};
use crate::kdf;
use crate::messages;
use crate::messages::message_body;
use crate::SessionError;

verus! {

/// The 80-byte expansion of a message seed: AES key, MAC key, IV.
pub open spec fn key_expansion(seed: Seq<u8>) -> Seq<u8> {
    hkdf_sha256(Seq::<u8>::empty(), seed, kdf::keys_info(), 80)
}

pub open spec fn aes_key_of(seed: Seq<u8>) -> Seq<u8> {
    key_expansion(seed).subrange(0, 32)
}

pub open spec fn mac_key_of(seed: Seq<u8>) -> Seq<u8> {
    key_expansion(seed).subrange(32, 64)
}

pub open spec fn iv_of(seed: Seq<u8>) -> Seq<u8> {
    key_expansion(seed).subrange(64, 80)
}

/// The ciphertext of `plaintext` under the keys expanded from `seed`.
pub open spec fn spec_ciphertext(seed: Seq<u8>, plaintext: Seq<u8>) -> Seq<u8> {
    aes256_cbc_encrypt(aes_key_of(seed), iv_of(seed), plaintext)
}

/// The truncated MAC carried by a wire message.
pub open spec fn mac8(seed: Seq<u8>, body: Seq<u8>) -> Seq<u8> {
    hmac_sha256(mac_key_of(seed), body).subrange(0, 8)
}

/// The full wire bytes of a message sent with `seed` at chain position
/// `index` under the ratchet public key `ratchet_key`.
pub open spec fn spec_message(
    ratchet_key: Seq<u8>,
    index: nat,
    seed: Seq<u8>,
    plaintext: Seq<u8>,
) -> Seq<u8> {
    let body = message_body(ratchet_key, index, spec_ciphertext(seed, plaintext));
    body + mac8(seed, body)
}

/// The view of a message key: its seed and the chain index it was
/// derived at.
#[verifier::ext_equal]
pub ghost struct MessageKeyV {
    pub seed: Seq<u8>,
    pub index: nat,
}

/// One-time key material for exactly one message.
pub struct MessageKey {
    pub(crate) seed: Vec<u8>,
    pub(crate) index: u64,
}

impl View for MessageKey {
    type V = MessageKeyV;

    closed spec fn view(&self) -> MessageKeyV {
        MessageKeyV { seed: self.seed@, index: self.index as nat }
    }
}

impl MessageKey {
    pub(crate) fn new(seed: Vec<u8>, index: u64) -> (r: Self)
        ensures
            r@ == (MessageKeyV { seed: seed@, index: index as nat }),
    {
        Self { seed, index }
    }

    pub(crate) fn seed_bytes(&self) -> (r: &Vec<u8>)
        ensures
            r@ == self@.seed,
    {
        &self.seed
    }

    pub(crate) fn key_index(&self) -> (r: u64)
        ensures
            r as nat == self@.index,
    {
        self.index
    }
}

struct ExpandedKeys {
    aes_key: Vec<u8>,
    mac_key: Vec<u8>,
    iv: Vec<u8>,
}

fn expand_seed(seed: &[u8]) -> (r: ExpandedKeys)
    ensures
        r.aes_key@ == aes_key_of(seed@),
        r.mac_key@ == mac_key_of(seed@),
        r.iv@ == iv_of(seed@),
        r.aes_key@.len() == 32,
        r.mac_key@.len() == 32,
        r.iv@.len() == 16,
{
    let salt: Vec<u8> = Vec::new();
    assert(salt@ =~= Seq::<u8>::empty());
    let info = kdf::keys_info_bytes();
    let okm = crypto::hkdf_sha256_expand(salt.as_slice(), seed, info.as_slice(), 80);
    let aes_key = vstd::slice::slice_to_vec(vstd::slice::slice_subrange(okm.as_slice(), 0, 32));
    let mac_key = vstd::slice::slice_to_vec(vstd::slice::slice_subrange(okm.as_slice(), 32, 64));
    let iv = vstd::slice::slice_to_vec(vstd::slice::slice_subrange(okm.as_slice(), 64, 80));
    ExpandedKeys { aes_key, mac_key, iv }
}

/// Builds the full wire message for one plaintext.
pub(crate) fn encrypt_with_seed(
    seed: &[u8],
    ratchet_key: &[u8],
    index: u64,
    plaintext: &[u8],
) -> (r: Vec<u8>)
    requires
        ratchet_key@.len() == 32,
    ensures
        r@ == spec_message(ratchet_key@, index as nat, seed@, plaintext@),
{
    let keys = expand_seed(seed);
    let ciphertext = crypto::aes256_cbc_enc(keys.aes_key.as_slice(), keys.iv.as_slice(), plaintext);
    let mut body = messages::encode_message(ratchet_key, index, ciphertext.as_slice());
    let tag = crypto::hmac_sha256_tag(keys.mac_key.as_slice(), body.as_slice());
    let tag8 = vstd::slice::slice_subrange(tag.as_slice(), 0, 8);
    let ghost spec_body = message_body(
        ratchet_key@,
        index as nat,
        spec_ciphertext(seed@, plaintext@),
    );
    body.extend_from_slice(tag8);
    proof {
        assert(body@ =~= spec_message(ratchet_key@, index as nat, seed@, plaintext@));
    }
    body
}

/// Authenticates `body` against the delivered MAC and, only on success,
/// decrypts the ciphertext.  The MAC comparison runs in constant time.
pub(crate) fn decrypt_with_seed(
    seed: &[u8],
    body: &[u8],
    ciphertext: &[u8],
    mac: &[u8],
) -> (r: Result<Vec<u8>, SessionError>)
    ensures
        mac@ != mac8(seed@, body@) ==> r is Err && r->Err_0 == SessionError::AuthenticationFailed,
        mac@ == mac8(seed@, body@) ==> (forall|plaintext: Seq<u8>|
            ciphertext@ == spec_ciphertext(seed@, plaintext) ==> r is Ok && r->Ok_0@ == plaintext),
        r is Err ==> r->Err_0 == SessionError::AuthenticationFailed,
{
    let keys = expand_seed(seed);
    let tag = crypto::hmac_sha256_tag(keys.mac_key.as_slice(), body);
    let tag8 = vstd::slice::slice_subrange(tag.as_slice(), 0, 8);
    if !crypto::bytes_eq_ct(tag8, mac) {
        return Err(SessionError::AuthenticationFailed);
    }
    match crypto::aes256_cbc_dec(keys.aes_key.as_slice(), keys.iv.as_slice(), ciphertext) {
        Some(plaintext) => Ok(plaintext),
        None => Err(SessionError::AuthenticationFailed),
    }
}

} // verus!
