//! Trusted boundary around the cryptographic primitives.
//!
//! Every primitive the protocol relies on (X25519, HKDF-SHA-256,
//! HMAC-SHA-256, AES-256-CBC) is reached through exactly one wrapper here.
//! The value each primitive computes is given a name by an uninterpreted
//! spec function; the rest of the crate reasons purely in terms of those
//! names.

use vstd::prelude::*;

use aes::cipher::block_padding::Pkcs7;
use aes::cipher::{BlockDecryptMut, BlockEncryptMut, KeyIvInit};
use hkdf::Hkdf;
use hmac::{Hmac, Mac};
use sha2::Sha256;
use subtle::ConstantTimeEq;
use x25519_dalek::{PublicKey, StaticSecret};

verus! {

/// The X25519 function applied to a 32-byte scalar and a 32-byte point.
pub uninterp spec fn curve_mul(scalar: Seq<u8>, point: Seq<u8>) -> Seq<u8>;

/// The X25519 public key (basepoint multiple) of a 32-byte scalar.
pub uninterp spec fn curve_base(scalar: Seq<u8>) -> Seq<u8>;

/// The HKDF-SHA-256 output of the given salt, input key material, info
/// string and output length.
pub uninterp spec fn hkdf_sha256(salt: Seq<u8>, ikm: Seq<u8>, info: Seq<u8>, len: nat) -> Seq<u8>;

/// The HMAC-SHA-256 tag of `data` under `key`.
pub uninterp spec fn hmac_sha256(key: Seq<u8>, data: Seq<u8>) -> Seq<u8>;

/// The AES-256-CBC encryption (PKCS#7 padded) of `plaintext` under the
/// given key and initialization vector.
pub uninterp spec fn aes256_cbc_encrypt(key: Seq<u8>, iv: Seq<u8>, plaintext: Seq<u8>) -> Seq<u8>;

/// Relies on x25519_dalek::StaticSecret::random_from_rng: fills the secret
/// with 32 bytes from the operating-system random number generator.
/// Nothing can be promised of the value itself.
#[verifier::external_body]
pub(crate) fn random_secret_bytes() -> (r: Vec<u8>)
    ensures
        r@.len() == 32,
{
    let secret = StaticSecret::random_from_rng(rand::rngs::OsRng);
    secret.to_bytes().to_vec()
}

/// Relies on x25519_dalek::PublicKey::from(&StaticSecret): the public key
/// is the clamped basepoint multiple of the secret bytes, a function of
/// those bytes alone.
#[verifier::external_body]
pub(crate) fn curve25519_base(secret: &[u8]) -> (r: Vec<u8>)
    requires
        secret@.len() == 32,
    ensures
        r@ == curve_base(secret@),
        r@.len() == 32,
{
    let mut sk = [0u8; 32];
    sk.copy_from_slice(secret);
    let public = PublicKey::from(&StaticSecret::from(sk));
    public.to_bytes().to_vec()
}

/// Relies on x25519_dalek::StaticSecret::diffie_hellman: the shared secret
/// is the clamped scalar multiple of the peer's point, a function of the
/// two 32-byte inputs alone.  The last clause is the Diffie-Hellman
/// agreement property that the crate documents with the
/// `alice_shared_secret == bob_shared_secret` example: when the peer's
/// point is the public key of some scalar, both orders of the computation
/// give the same bytes.
#[verifier::external_body]
pub(crate) fn curve25519_dh(secret: &[u8], public: &[u8]) -> (r: Vec<u8>)
    requires
        secret@.len() == 32,
        public@.len() == 32,
    ensures
        r@ == curve_mul(secret@, public@),
        r@.len() == 32,
        forall|other: Seq<u8>|
            public@ == curve_base(other) ==> r@ == curve_mul(other, curve_base(secret@)),
{
    let mut sk = [0u8; 32];
    sk.copy_from_slice(secret);
    let mut pk = [0u8; 32];
    pk.copy_from_slice(public);
    let shared = StaticSecret::from(sk).diffie_hellman(&PublicKey::from(pk));
    shared.to_bytes().to_vec()
}

/// Relies on hkdf::Hkdf::<Sha256>::new and Hkdf::expand: fills a buffer of
/// the requested length with the HKDF-SHA-256 output keying material;
/// `expand` only fails for outputs longer than 255 hash blocks.
#[verifier::external_body]
pub(crate) fn hkdf_sha256_expand(salt: &[u8], ikm: &[u8], info: &[u8], len: usize) -> (r: Vec<u8>)
    requires
        len <= 8160,
    ensures
        r@ == hkdf_sha256(salt@, ikm@, info@, len as nat),
        r@.len() == len,
{
    let kdf = Hkdf::<Sha256>::new(Some(salt), ikm);
    let mut okm = vec![0u8; len];
    kdf.expand(info, &mut okm).expect("output length is within the HKDF bound");
    okm
}

/// Relies on hmac::Hmac::<Sha256>: computes the 32-byte HMAC-SHA-256 tag;
/// keys of any length are accepted.
#[verifier::external_body]
pub(crate) fn hmac_sha256_tag(key: &[u8], data: &[u8]) -> (r: Vec<u8>)
    ensures
        r@ == hmac_sha256(key@, data@),
        r@.len() == 32,
{
    let mut mac = <Hmac<Sha256> as Mac>::new_from_slice(key)
        .expect("HMAC accepts keys of any length");
    mac.update(data);
    mac.finalize().into_bytes().to_vec()
}

/// Relies on cbc::Encryptor::<aes::Aes256> with PKCS#7 padding: the
/// ciphertext is a function of key, IV and plaintext alone.
#[verifier::external_body]
pub(crate) fn aes256_cbc_enc(key: &[u8], iv: &[u8], plaintext: &[u8]) -> (r: Vec<u8>)
    requires
        key@.len() == 32,
        iv@.len() == 16,
    ensures
        r@ == aes256_cbc_encrypt(key@, iv@, plaintext@),
{
    let mut k = [0u8; 32];
    k.copy_from_slice(key);
    let mut nonce = [0u8; 16];
    nonce.copy_from_slice(iv);
    let cipher = cbc::Encryptor::<aes::Aes256>::new(&k.into(), &nonce.into());
    cipher.encrypt_padded_vec_mut::<Pkcs7>(plaintext)
}

/// Relies on cbc::Decryptor::<aes::Aes256> with PKCS#7 unpadding: it
/// inverts the encryptor, so a ciphertext that is the encryption of some
/// plaintext under this key and IV decrypts to exactly that plaintext.
#[verifier::external_body]
pub(crate) fn aes256_cbc_dec(key: &[u8], iv: &[u8], ciphertext: &[u8]) -> (r: Option<Vec<u8>>)
    requires
        key@.len() == 32,
        iv@.len() == 16,
    ensures
        forall|plaintext: Seq<u8>|
            ciphertext@ == aes256_cbc_encrypt(key@, iv@, plaintext) ==> (r is Some
                && r->0@ == plaintext),
{
    let mut k = [0u8; 32];
    k.copy_from_slice(key);
    let mut nonce = [0u8; 16];
    nonce.copy_from_slice(iv);
    let cipher = cbc::Decryptor::<aes::Aes256>::new(&k.into(), &nonce.into());
    cipher.decrypt_padded_vec_mut::<Pkcs7>(ciphertext).ok()
}

/// Relies on subtle::ConstantTimeEq for byte slices: it short-circuits
/// only on the lengths, compares equal-length contents in constant
/// time, and reports exactly whether the two slices hold the same bytes.
#[verifier::external_body]
pub(crate) fn bytes_eq_ct(a: &[u8], b: &[u8]) -> (r: bool)
    ensures
        r == (a@ == b@),
{
    bool::from(a.ct_eq(b))
}

} // verus!
