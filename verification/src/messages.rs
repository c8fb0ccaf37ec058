//! Wire framing of the two message shapes.
//!
//! A normal message is a version byte, the sender's ratchet public key,
//! the chain index as a little-endian base-128 varint, the ciphertext,
//! and a trailing 8-byte MAC.  A pre-key message prefixes the handshake
//! public keys to an embedded normal message.

use vstd::prelude::*;

use crate::SessionError;

verus! {

pub const VERSION: u8 = 3;

/// Little-endian base-128 varint encoding of `n`: every byte but the
/// last carries the high bit.
pub open spec fn varint(n: nat) -> Seq<u8>
    decreases n,
{
    if n < 128 {
        seq![n as u8]
    } else {
        seq![(128 + n % 128) as u8] + varint(n / 128)
    }
}

/// Reads a varint from the front of `s`: the value and the number of
/// bytes consumed, or nothing if `s` ends inside the varint.
pub open spec fn varint_decode(s: Seq<u8>) -> Option<(nat, nat)>
    decreases s.len(),
{
    if s.len() == 0 {
        None
    } else if s[0] < 128 {
        Some((s[0] as nat, 1))
    } else {
        match varint_decode(s.subrange(1, s.len() as int)) {
            None => None,
            Some((v, used)) => Some(((s[0] - 128) as nat + 128 * v, used + 1)),
        }
    }
}

/// Decoding consumes at least one byte and never more than the input.
pub proof fn lemma_varint_decode_len(s: Seq<u8>)
    ensures
        varint_decode(s) is Some ==> 1 <= (varint_decode(s)->0).1 <= s.len(),
    decreases s.len(),
{
    if s.len() > 0 && s[0] >= 128 {
        lemma_varint_decode_len(s.subrange(1, s.len() as int));
    }
}

/// The varint round trip: decoding an encoded value from the front of
/// any byte sequence gives the value back and consumes exactly the
/// encoding.
pub proof fn lemma_varint_round_trip(n: nat, rest: Seq<u8>)
    ensures
        varint(n).len() >= 1,
        varint_decode(varint(n) + rest) == Some((n, varint(n).len())),
    decreases n,
{
    let s = varint(n) + rest;
    if n < 128 {
        assert(s[0] == n as u8);
    } else {
        let b: u8 = (128 + n % 128) as u8;
        assert(128 + n % 128 < 256) by {
            assert(n % 128 < 128) by (nonlinear_arith);
        }
        assert(b as nat == 128 + n % 128);
        assert(s[0] == b);
        lemma_varint_round_trip(n / 128, rest);
        assert(s.subrange(1, s.len() as int) =~= varint(n / 128) + rest);
        assert((b - 128) as nat + 128 * (n / 128) == n) by {
            assert(n % 128 + 128 * (n / 128) == n) by (nonlinear_arith);
        }
    }
}

/// Appends the varint encoding of `n` to `dst`.
pub(crate) fn push_varint(dst: &mut Vec<u8>, n: u64)
    ensures
        final(dst)@ == old(dst)@ + varint(n as nat),
    decreases n,
{
    if n < 128 {
        dst.push(n as u8);
        assert(final(dst)@ =~= old(dst)@ + varint(n as nat));
    } else {
        let b: u8 = 128 + (n % 128) as u8;
        assert(b as nat == 128 + (n as nat) % 128) by {
            assert((n % 128) as nat == (n as nat) % 128) by (nonlinear_arith);
        }
        dst.push(b);
        assert(((n / 128) as nat) == (n as nat) / 128) by (nonlinear_arith);
        push_varint(dst, n / 128);
        assert(final(dst)@ =~= old(dst)@ + varint(n as nat));
    }
}

/// Reads a varint that starts at `pos` and must end by `end`; rejects a
/// truncated encoding and a value that does not fit in 64 bits.
pub(crate) fn read_varint(s: &[u8], pos: usize, end: usize) -> (r: Result<(u64, usize), SessionError>)
    requires
        pos <= end <= s@.len(),
    ensures
        match varint_decode(s@.subrange(pos as int, end as int)) {
            Some((v, used)) => {
                if v <= u64::MAX as nat {
                    r is Ok && (r->Ok_0).0 as nat == v && (r->Ok_0).1 == pos + used
                } else {
                    r is Err && r->Err_0 == SessionError::DecodeError
                }
            },
            None => r is Err && r->Err_0 == SessionError::DecodeError,
        },
    decreases end - pos,
{
    let ghost region = s@.subrange(pos as int, end as int);
    if pos >= end {
        return Err(SessionError::DecodeError);
    }
    let b = s[pos];
    assert(region[0] == b);
    if b < 128 {
        Ok((b as u64, pos + 1))
    } else {
        let ghost tail = s@.subrange(pos + 1 as int, end as int);
        assert(region.subrange(1, region.len() as int) =~= tail);
        match read_varint(s, pos + 1, end) {
            Err(e) => {
                proof {
                    if varint_decode(region) is Some {
                        let (v, used) = (varint_decode(region)->0);
                        let (vt, ut) = (varint_decode(tail)->0);
                        assert(v == (b - 128) as nat + 128 * vt);
                        assert(vt > u64::MAX as nat);
                        assert(128 * vt >= vt) by (nonlinear_arith);
                    }
                }
                Err(e)
            },
            Ok((v, next)) => {
                let low: u8 = b - 128;
                if v > (u64::MAX - low as u64) / 128 {
                    proof {
                        let vt = (varint_decode(tail)->0).0;
                        assert(vt == v as nat);
                        assert(128 * (v as nat) + low as nat > u64::MAX as nat) by (nonlinear_arith)
                            requires
                                v as nat > ((u64::MAX - low as u64) / 128) as nat,
                                ((u64::MAX - low as u64) / 128) as nat == ((u64::MAX as nat
                                    - low as nat) as nat) / 128,
                                (low as nat) < 128;
                    }
                    Err(SessionError::DecodeError)
                } else {
                    proof {
                        assert(128 * (v as nat) + low as nat <= u64::MAX as nat)
                            by (nonlinear_arith)
                            requires
                                v as nat <= ((u64::MAX - low as u64) / 128) as nat,
                                ((u64::MAX - low as u64) / 128) as nat == ((u64::MAX as nat
                                    - low as nat) as nat) / 128,
                                (low as nat) < 128;
                    }
                    let value: u64 = low as u64 + 128 * v;
                    assert(value as nat == (b - 128) as nat + 128 * (v as nat)) by (nonlinear_arith)
                        requires
                            value == low as u64 + 128 * v,
                            low == b - 128,
                            128 * (v as nat) + low as nat <= u64::MAX as nat;
                    Ok((value, next))
                }
            },
        }
    }
}

/// The authenticated body of a normal message: version byte, ratchet
/// public key, varint chain index, ciphertext.  The wire message is the
/// body followed by the 8-byte MAC.
pub open spec fn message_body(ratchet_key: Seq<u8>, index: nat, ciphertext: Seq<u8>) -> Seq<u8> {
    seq![VERSION] + ratchet_key + varint(index) + ciphertext
}

/// The view of a parsed normal message.
#[verifier::ext_equal]
pub ghost struct DecodedV {
    pub ratchet_key: Seq<u8>,
    pub index: nat,
    pub ciphertext: Seq<u8>,
    pub mac: Seq<u8>,
}

/// A parsed normal message.
pub struct DecodedMessage {
    pub ratchet_key: Vec<u8>,
    pub index: u64,
    pub ciphertext: Vec<u8>,
    pub mac: Vec<u8>,
}

impl View for DecodedMessage {
    type V = DecodedV;

    open spec fn view(&self) -> DecodedV {
        DecodedV {
            ratchet_key: self.ratchet_key@,
            index: self.index as nat,
            ciphertext: self.ciphertext@,
            mac: self.mac@,
        }
    }
}

/// The parse function of a normal message: the version byte must match,
/// the ratchet key is the next 32 bytes, the index is a varint that must
/// fit in 64 bits, the last 8 bytes are the MAC and everything between
/// is the ciphertext.
pub open spec fn spec_decode(s: Seq<u8>) -> Option<DecodedV> {
    if s.len() < 42 {
        None
    } else if s[0] != VERSION {
        None
    } else {
        match varint_decode(s.subrange(33, s.len() - 8)) {
            None => None,
            Some((v, used)) => if v > u64::MAX as nat {
                None
            } else {
                Some(
                    DecodedV {
                        ratchet_key: s.subrange(1, 33),
                        index: v,
                        ciphertext: s.subrange(33 + used as int, s.len() - 8),
                        mac: s.subrange(s.len() - 8, s.len() as int),
                    },
                )
            },
        }
    }
}

pub(crate) fn encode_message(ratchet_key: &[u8], index: u64, ciphertext: &[u8]) -> (r: Vec<u8>)
    requires
        ratchet_key@.len() == 32,
    ensures
        r@ == message_body(ratchet_key@, index as nat, ciphertext@),
{
    let mut out: Vec<u8> = Vec::new();
    out.push(VERSION);
    out.extend_from_slice(ratchet_key);
    push_varint(&mut out, index);
    out.extend_from_slice(ciphertext);
    proof {
        assert(out@ =~= message_body(ratchet_key@, index as nat, ciphertext@));
    }
    out
}

pub fn decode_message(bytes: &[u8]) -> (r: Result<DecodedMessage, SessionError>)
    ensures
        match spec_decode(bytes@) {
            Some(d) => r is Ok && r->Ok_0@ == d,
            None => r is Err && r->Err_0 == SessionError::DecodeError,
        },
{
    let n = bytes.len();
    if n < 42 {
        return Err(SessionError::DecodeError);
    }
    if bytes[0] != VERSION {
        return Err(SessionError::DecodeError);
    }
    let ratchet_key = vstd::slice::slice_to_vec(vstd::slice::slice_subrange(bytes, 1, 33));
    let end = n - 8;
    match read_varint(bytes, 33, end) {
        Err(_) => Err(SessionError::DecodeError),
        Ok((index, pos)) => {
            proof {
                lemma_varint_decode_len(bytes@.subrange(33, end as int));
            }
            let ciphertext = vstd::slice::slice_to_vec(vstd::slice::slice_subrange(bytes, pos, end));
            let mac = vstd::slice::slice_to_vec(vstd::slice::slice_subrange(bytes, end, n));
            Ok(DecodedMessage { ratchet_key, index, ciphertext, mac })
        },
    }
}

/// The wire round trip of a normal message: a body built from the parts
/// followed by any 8-byte MAC parses back to exactly those parts.
pub proof fn lemma_decode_message_wire(
    ratchet_key: Seq<u8>,
    index: nat,
    ciphertext: Seq<u8>,
    mac: Seq<u8>,
)
    requires
        ratchet_key.len() == 32,
        index <= u64::MAX,
        mac.len() == 8,
    ensures
        spec_decode(message_body(ratchet_key, index, ciphertext) + mac) == Some(
            DecodedV { ratchet_key, index, ciphertext, mac },
        ),
{
    let body = message_body(ratchet_key, index, ciphertext);
    let s = body + mac;
    lemma_varint_round_trip(index, ciphertext);
    let vl = varint(index).len();
    assert(s.len() == 33 + vl + ciphertext.len() + 8);
    assert(s[0] == VERSION);
    assert(s.subrange(33, s.len() - 8) =~= varint(index) + ciphertext);
    let d = spec_decode(s)->0;
    assert(d.ratchet_key =~= ratchet_key) by {
        assert(s.subrange(1, 33) =~= ratchet_key);
    }
    assert(d.ciphertext =~= ciphertext) by {
        assert(s.subrange(33 + vl as int, s.len() - 8) =~= ciphertext);
    }
    assert(d.mac =~= mac) by {
        assert(s.subrange(s.len() - 8, s.len() as int) =~= mac);
    }
}

/// The view of a parsed pre-key message.
#[verifier::ext_equal]
pub ghost struct PreKeyDecodedV {
    pub one_time_key: Seq<u8>,
    pub ephemeral_key: Seq<u8>,
    pub identity_key: Seq<u8>,
    pub message: Seq<u8>,
}

/// A parsed pre-key message: the three handshake public keys and the
/// embedded normal message.
pub struct PreKeyDecoded {
    pub one_time_key: Vec<u8>,
    pub ephemeral_key: Vec<u8>,
    pub identity_key: Vec<u8>,
    pub message: Vec<u8>,
}

impl View for PreKeyDecoded {
    type V = PreKeyDecodedV;

    open spec fn view(&self) -> PreKeyDecodedV {
        PreKeyDecodedV {
            one_time_key: self.one_time_key@,
            ephemeral_key: self.ephemeral_key@,
            identity_key: self.identity_key@,
            message: self.message@,
        }
    }
}

/// A pre-key message: version byte, then the one-time, ephemeral and
/// identity public keys, then the embedded normal message.
pub open spec fn prekey_wire(
    one_time_key: Seq<u8>,
    ephemeral_key: Seq<u8>,
    identity_key: Seq<u8>,
    message: Seq<u8>,
) -> Seq<u8> {
    seq![VERSION] + one_time_key + ephemeral_key + identity_key + message
}

pub open spec fn spec_decode_prekey(s: Seq<u8>) -> Option<PreKeyDecodedV> {
    if s.len() < 97 {
        None
    } else if s[0] != VERSION {
        None
    } else {
        Some(
            PreKeyDecodedV {
                one_time_key: s.subrange(1, 33),
                ephemeral_key: s.subrange(33, 65),
                identity_key: s.subrange(65, 97),
                message: s.subrange(97, s.len() as int),
            },
        )
    }
}

pub(crate) fn encode_prekey(
    one_time_key: &[u8],
    ephemeral_key: &[u8],
    identity_key: &[u8],
    message: &[u8],
) -> (r: Vec<u8>)
    requires
        one_time_key@.len() == 32,
        ephemeral_key@.len() == 32,
        identity_key@.len() == 32,
    ensures
        r@ == prekey_wire(one_time_key@, ephemeral_key@, identity_key@, message@),
{
    let mut out: Vec<u8> = Vec::new();
    out.push(VERSION);
    out.extend_from_slice(one_time_key);
    out.extend_from_slice(ephemeral_key);
    out.extend_from_slice(identity_key);
    out.extend_from_slice(message);
    proof {
        assert(out@ =~= prekey_wire(one_time_key@, ephemeral_key@, identity_key@, message@));
    }
    out
}

pub fn decode_prekey(bytes: &[u8]) -> (r: Result<PreKeyDecoded, SessionError>)
    ensures
        match spec_decode_prekey(bytes@) {
            Some(d) => r is Ok && r->Ok_0@ == d,
            None => r is Err && r->Err_0 == SessionError::DecodeError,
        },
{
    let n = bytes.len();
    if n < 97 {
        return Err(SessionError::DecodeError);
    }
    if bytes[0] != VERSION {
        return Err(SessionError::DecodeError);
    }
    let one_time_key = vstd::slice::slice_to_vec(vstd::slice::slice_subrange(bytes, 1, 33));
    let ephemeral_key = vstd::slice::slice_to_vec(vstd::slice::slice_subrange(bytes, 33, 65));
    let identity_key = vstd::slice::slice_to_vec(vstd::slice::slice_subrange(bytes, 65, 97));
    let message = vstd::slice::slice_to_vec(vstd::slice::slice_subrange(bytes, 97, n));
    Ok(PreKeyDecoded { one_time_key, ephemeral_key, identity_key, message })
}

/// The wire round trip of a pre-key message.
pub proof fn lemma_decode_prekey_wire(
    one_time_key: Seq<u8>,
    ephemeral_key: Seq<u8>,
    identity_key: Seq<u8>,
    message: Seq<u8>,
)
    requires
        one_time_key.len() == 32,
        ephemeral_key.len() == 32,
        identity_key.len() == 32,
    ensures
        spec_decode_prekey(prekey_wire(one_time_key, ephemeral_key, identity_key, message))
            == Some(PreKeyDecodedV { one_time_key, ephemeral_key, identity_key, message }),
{
    let s = prekey_wire(one_time_key, ephemeral_key, identity_key, message);
    assert(s[0] == VERSION);
    let d = spec_decode_prekey(s)->0;
    assert(d.one_time_key =~= one_time_key) by {
        assert(s.subrange(1, 33) =~= one_time_key);
    }
    assert(d.ephemeral_key =~= ephemeral_key) by {
        assert(s.subrange(33, 65) =~= ephemeral_key);
    }
    assert(d.identity_key =~= identity_key) by {
        assert(s.subrange(65, 97) =~= identity_key);
    }
    assert(d.message =~= message) by {
        assert(s.subrange(97, s.len() as int) =~= message);
    }
}

/// A normal wire message.
pub struct Message {
    pub inner: Vec<u8>,
}

impl View for Message {
    type V = Seq<u8>;

    open spec fn view(&self) -> Seq<u8> {
        self.inner@
    }
}

/// A pre-key wire message.
pub struct PreKeyMessage {
    pub inner: Vec<u8>,
}

impl View for PreKeyMessage {
    type V = Seq<u8>;

    open spec fn view(&self) -> Seq<u8> {
        self.inner@
    }
}

/// The view of a wire envelope: which framing it uses and its bytes.
#[verifier::ext_equal]
pub ghost enum OlmMessageV {
    Normal(Seq<u8>),
    PreKey(Seq<u8>),
}

/// The wire envelope a session produces and consumes.
pub enum OlmMessage {
    Normal(Message),
    PreKey(PreKeyMessage),
}

impl View for OlmMessage {
    type V = OlmMessageV;

    open spec fn view(&self) -> OlmMessageV {
        match self {
            OlmMessage::Normal(m) => OlmMessageV::Normal(m.inner@),
            OlmMessage::PreKey(m) => OlmMessageV::PreKey(m.inner@),
        }
    }
}

} // verus!
