//! The session: one ongoing conversation with one peer.
//!
//! A session owns the sending ratchet, at most one receiving ratchet,
//! the handshake key snapshot that outgoing messages embed until the
//! peer proves receipt, and a bounded cache of message keys that were
//! skipped by out-of-order delivery.

use vstd::prelude::*;

use crate::chain_key::{chain_after, chain_next, chain_seed, ChainKeyV};
use crate::double_ratchet::{
    local_wf, remote_wf, spec_after_send, spec_ratchet_step, spec_sent_message, ActiveV,
    InactiveV, LocalDoubleRatchet, LocalRatchetV, RemoteDoubleRatchet, RemoteRatchetV,
};
use crate::keys::{Curve25519PublicKey, SessionKeys, SessionKeysV};
use crate::message_key::{mac8, spec_ciphertext, MessageKey};
use crate::message_key;
use crate::messages::{
    message_body, prekey_wire, spec_decode, spec_decode_prekey, DecodedV, Message, OlmMessage,
    OlmMessageV, PreKeyMessage,
};
use crate::messages;
use crate::shared_secret::{
    initial_chain, initial_root, RemoteShared3DHSecret, Shared3DHSecret,
};
use crate::crypto::{curve_base, curve_mul};
use crate::SessionError;

verus! {

/// The furthest a message may run ahead of its chain before it is
/// rejected rather than ratcheted up to.
pub const MAX_MESSAGE_GAP: u64 = 2000;

/// The size bound of the skipped-message-key cache; the oldest entries
/// are evicted first.
pub const MAX_SKIPPED_KEYS: usize = 40;

/// The view of one cached skipped-message key.
#[verifier::ext_equal]
pub ghost struct SkippedV {
    pub ratchet_key: Seq<u8>,
    pub index: nat,
    pub seed: Seq<u8>,
}

/// A message key put aside because a later message on its chain arrived
/// first, remembered under the ratchet key of that chain.
pub struct SkippedMessageKey {
    ratchet_key: Vec<u8>,
    message_key: MessageKey,
}

impl View for SkippedMessageKey {
    type V = SkippedV;

    closed spec fn view(&self) -> SkippedV {
        SkippedV {
            ratchet_key: self.ratchet_key@,
            index: self.message_key@.index,
            seed: self.message_key@.seed,
        }
    }
}

/// The view of a whole session.
#[verifier::ext_equal]
pub ghost struct SessionV {
    pub session_keys: Option<SessionKeysV>,
    pub sending: LocalRatchetV,
    pub receiving: Option<RemoteRatchetV>,
    pub skipped: Seq<SkippedV>,
}

pub open spec fn session_keys_wf(k: SessionKeysV) -> bool {
    k.identity.len() == 32 && k.ephemeral.len() == 32 && k.one_time.len() == 32
}

pub open spec fn session_wf(s: SessionV) -> bool {
    &&& local_wf(s.sending)
    &&& match s.receiving {
        Some(r) => remote_wf(r),
        None => true,
    }
    &&& match s.session_keys {
        Some(k) => session_keys_wf(k),
        None => true,
    }
}

/// The state of a freshly constructed initiator session: the handshake
/// snapshot is present, the sending ratchet is active on the chain
/// seeded by the shared secret, and nothing has been received.
pub open spec fn initiator_initial(shared: Seq<u8>, keys: SessionKeysV, sk: Seq<u8>) -> SessionV {
    SessionV {
        session_keys: Some(keys),
        sending: LocalRatchetV::Active(
            ActiveV {
                root: initial_root(shared),
                ratchet_sk: sk,
                ratchet_pub: curve_base(sk),
                chain: ChainKeyV { key: initial_chain(shared), index: 0 },
            },
        ),
        receiving: None,
        skipped: Seq::empty(),
    }
}

/// The state of a freshly constructed responder session: no handshake
/// snapshot, an inactive sending side, and a receiving chain on the
/// initiator's announced ratchet key.
pub open spec fn responder_initial(shared: Seq<u8>, remote_key: Seq<u8>) -> SessionV {
    SessionV {
        session_keys: None,
        sending: LocalRatchetV::Inactive(InactiveV { root: initial_root(shared), remote_key }),
        receiving: Some(
            RemoteRatchetV {
                remote_key,
                chain: ChainKeyV { key: initial_chain(shared), index: 0 },
            },
        ),
        skipped: Seq::empty(),
    }
}

pub open spec fn skipped_matches(e: SkippedV, ratchet_key: Seq<u8>, index: nat) -> bool {
    e.ratchet_key == ratchet_key && e.index == index
}

/// The position of the first cached key for `(ratchet_key, index)`.
pub open spec fn find_skipped(s: Seq<SkippedV>, ratchet_key: Seq<u8>, index: nat) -> Option<int>
    decreases s.len(),
{
    if s.len() == 0 {
        None
    } else if skipped_matches(s[0], ratchet_key, index) {
        Some(0)
    } else {
        match find_skipped(s.subrange(1, s.len() as int), ratchet_key, index) {
            None => None,
            Some(i) => Some(i + 1),
        }
    }
}

pub proof fn lemma_find_skipped(s: Seq<SkippedV>, ratchet_key: Seq<u8>, index: nat)
    ensures
        match find_skipped(s, ratchet_key, index) {
            Some(i) => 0 <= i < s.len() && skipped_matches(s[i], ratchet_key, index) && forall|
                j: int,
            | 0 <= j < i ==> !skipped_matches(s[j], ratchet_key, index),
            None => forall|j: int| 0 <= j < s.len() ==> !skipped_matches(s[j], ratchet_key, index),
        },
    decreases s.len(),
{
    if s.len() > 0 && !skipped_matches(s[0], ratchet_key, index) {
        let tail = s.subrange(1, s.len() as int);
        lemma_find_skipped(tail, ratchet_key, index);
        assert(forall|j: int| 1 <= j < s.len() ==> s[j] == tail[j - 1]);
        match find_skipped(tail, ratchet_key, index) {
            Some(i) => {
                assert forall|j: int| 0 <= j < i + 1 implies !skipped_matches(
                    s[j],
                    ratchet_key,
                    index,
                ) by {
                    if j >= 1 {
                        assert(s[j] == tail[j - 1]);
                    }
                }
            },
            None => {
                assert forall|j: int| 0 <= j < s.len() implies !skipped_matches(
                    s[j],
                    ratchet_key,
                    index,
                ) by {
                    if j >= 1 {
                        assert(s[j] == tail[j - 1]);
                    }
                }
            },
        }
    }
}

/// The cache after an eviction pass: at most the newest
/// `MAX_SKIPPED_KEYS` entries survive.
pub open spec fn evict(s: Seq<SkippedV>) -> Seq<SkippedV> {
    if s.len() > MAX_SKIPPED_KEYS {
        s.subrange(s.len() - MAX_SKIPPED_KEYS, s.len() as int)
    } else {
        s
    }
}

/// The cache entries created when `gap` positions of a chain are
/// skipped over.
pub open spec fn new_skipped_entries(ratchet_key: Seq<u8>, chain: ChainKeyV, gap: nat) -> Seq<
    SkippedV,
> {
    Seq::new(
        gap,
        |j: int|
            SkippedV {
                ratchet_key,
                index: (chain.index + j) as nat,
                seed: chain_seed(chain_after(chain, j as nat).key),
            },
    )
}

/// The cache entries for a batch of message keys put aside under one
/// ratchet key.
pub open spec fn spec_entries(ratchet_key: Seq<u8>, ks: Seq<MessageKey>) -> Seq<SkippedV> {
    Seq::new(
        ks.len(),
        |i: int| SkippedV { ratchet_key, index: ks[i]@.index, seed: ks[i]@.seed },
    )
}

/// What one delivery does to a session, decided before any state is
/// touched: either it is rejected with an error and the state must stay
/// as it was, or it is accepted under a message seed and the state
/// moves to `next`.
#[verifier::ext_equal]
pub ghost enum ReceiveOutcome {
    Fail(SessionError),
    Accept { seed: Seq<u8>, ciphertext: Seq<u8>, next: SessionV },
}

/// Receiving one parsed message on a chain.  `sending` is the sending
/// side the committed state would carry (it differs from the current
/// one exactly when the message triggered a DH-ratchet step).
pub open spec fn receive_on_chain(
    s: SessionV,
    sending: LocalRatchetV,
    chain: RemoteRatchetV,
    d: DecodedV,
    body: Seq<u8>,
) -> ReceiveOutcome {
    if d.index < chain.chain.index {
        match find_skipped(s.skipped, d.ratchet_key, d.index) {
            None => ReceiveOutcome::Fail(SessionError::SkippedKeyExhausted),
            Some(i) => {
                let seed = s.skipped[i].seed;
                if d.mac == mac8(seed, body) {
                    ReceiveOutcome::Accept {
                        seed,
                        ciphertext: d.ciphertext,
                        next: SessionV {
                            session_keys: None,
                            sending,
                            receiving: Some(chain),
                            skipped: s.skipped.remove(i),
                        },
                    }
                } else {
                    ReceiveOutcome::Fail(SessionError::AuthenticationFailed)
                }
            },
        }
    } else if d.index == u64::MAX {
        ReceiveOutcome::Fail(SessionError::ProtocolStateError)
    } else if d.index - chain.chain.index > MAX_MESSAGE_GAP {
        ReceiveOutcome::Fail(SessionError::SkippedKeyExhausted)
    } else {
        let gap = (d.index - chain.chain.index) as nat;
        let seed = chain_seed(chain_after(chain.chain, gap).key);
        if d.mac == mac8(seed, body) {
            ReceiveOutcome::Accept {
                seed,
                ciphertext: d.ciphertext,
                next: SessionV {
                    session_keys: None,
                    sending,
                    receiving: Some(
                        RemoteRatchetV {
                            remote_key: chain.remote_key,
                            chain: chain_next(chain_after(chain.chain, gap)),
                        },
                    ),
                    skipped: evict(
                        s.skipped + new_skipped_entries(d.ratchet_key, chain.chain, gap),
                    ),
                },
            }
        } else {
            ReceiveOutcome::Fail(SessionError::AuthenticationFailed)
        }
    }
}

/// Receiving the bytes of one normal wire message.
pub open spec fn spec_receive(s: SessionV, wire: Seq<u8>) -> ReceiveOutcome {
    match spec_decode(wire) {
        None => ReceiveOutcome::Fail(SessionError::DecodeError),
        Some(d) => {
            let body = wire.subrange(0, wire.len() - 8);
            if s.receiving is Some && s.receiving->0.remote_key == d.ratchet_key {
                receive_on_chain(s, s.sending, s.receiving->0, d, body)
            } else {
                match s.sending {
                    LocalRatchetV::Inactive(_) => ReceiveOutcome::Fail(
                        SessionError::ProtocolStateError,
                    ),
                    LocalRatchetV::Active(a) => {
                        let step = spec_ratchet_step(a, d.ratchet_key);
                        receive_on_chain(
                            s,
                            LocalRatchetV::Inactive(step.0),
                            step.1,
                            d,
                            body,
                        )
                    },
                }
            }
        },
    }
}

/// Receiving a wire envelope: a pre-key message is unwrapped first.
pub open spec fn spec_session_receive(s: SessionV, m: OlmMessageV) -> ReceiveOutcome {
    match m {
        OlmMessageV::Normal(bytes) => spec_receive(s, bytes),
        OlmMessageV::PreKey(bytes) => match spec_decode_prekey(bytes) {
            None => ReceiveOutcome::Fail(SessionError::DecodeError),
            Some(p) => spec_receive(s, p.message),
        },
    }
}

/// One ongoing conversation with one peer.
pub struct Session {
    session_keys: Option<SessionKeys>,
    sending_ratchet: LocalDoubleRatchet,
    receiving_ratchet: Option<RemoteDoubleRatchet>,
    skipped_message_keys: Vec<SkippedMessageKey>,
}

impl View for Session {
    type V = SessionV;

    closed spec fn view(&self) -> SessionV {
        SessionV {
            session_keys: match self.session_keys {
                Some(k) => Some(k@),
                None => None,
            },
            sending: self.sending_ratchet@,
            receiving: match self.receiving_ratchet {
                Some(r) => Some(r@),
                None => None,
            },
            skipped: self.skipped_message_keys@.map_values(|k: SkippedMessageKey| k@),
        }
    }
}

impl Session {
    /// The initiator's constructor: the session starts with an active
    /// sending ratchet and announces the handshake keys until the peer
    /// proves receipt.
    pub fn new(shared_secret: Shared3DHSecret, session_keys: SessionKeys) -> (r: Self)
        requires
            session_keys.wf(),
        ensures
            r@ == initiator_initial(shared_secret@, session_keys@, r@.sending->Active_0.ratchet_sk),
            session_wf(r@),
    {
        let ghost shared = shared_secret@;
        let ghost keys = session_keys@;
        let sending_ratchet = LocalDoubleRatchet::active(shared_secret);
        let r = Session {
            session_keys: Some(session_keys),
            sending_ratchet,
            receiving_ratchet: None,
            skipped_message_keys: Vec::new(),
        };
        proof {
            assert(r@.skipped =~= Seq::<SkippedV>::empty());
            assert(r@ =~= initiator_initial(shared, keys, r@.sending->Active_0.ratchet_sk));
        }
        r
    }

    /// The responder's constructor: the receiving ratchet exists at
    /// once, the sending side stays inactive until there is something
    /// to send.
    pub fn new_remote(shared_secret: RemoteShared3DHSecret, ratchet_key: Curve25519PublicKey) -> (r:
        Self)
        requires
            ratchet_key@.len() == 32,
        ensures
            r@ == responder_initial(shared_secret@, ratchet_key@),
            session_wf(r@),
    {
        let ghost shared = shared_secret@;
        let ghost rk = ratchet_key@;
        let (root_key, remote_chain_key) = shared_secret.expand();
        let sending_ratchet = LocalDoubleRatchet::inactive(root_key, ratchet_key.duplicate());
        let remote_ratchet = RemoteDoubleRatchet::new(ratchet_key, remote_chain_key);
        let r = Session {
            session_keys: None,
            sending_ratchet,
            receiving_ratchet: Some(remote_ratchet),
            skipped_message_keys: Vec::new(),
        };
        proof {
            assert(r@.skipped =~= Seq::<SkippedV>::empty());
            assert(r@ =~= responder_initial(shared, rk));
        }
        r
    }

    /// Encrypts one message: drives the sending ratchet (activating it
    /// first if a DH-ratchet trigger reset it) and frames the result as
    /// a pre-key message exactly as long as the handshake snapshot is
    /// still held.  The only failure is a sending chain that has
    /// reached the last representable index.
    pub fn encrypt(&mut self, plaintext: &[u8]) -> (r: Result<OlmMessage, SessionError>)
        requires
            session_wf(old(self)@),
        ensures
            session_wf(final(self)@),
            r is Err ==> {
                &&& final(self)@ == old(self)@
                &&& r->Err_0 == SessionError::ProtocolStateError
                &&& old(self)@.sending is Active
                &&& old(self)@.sending->Active_0.chain.index == u64::MAX
            },
            (old(self)@.sending is Inactive || old(self)@.sending->Active_0.chain.index
                < u64::MAX) ==> r is Ok,
            r is Ok ==> ({
                let a1 = final(self)@.sending->Active_0;
                let pre = crate::double_ratchet::pre_send_state(
                    old(self)@.sending,
                    a1.ratchet_sk,
                );
                &&& final(self)@.sending is Active
                &&& a1 == spec_after_send(pre)
                &&& final(self)@.session_keys == old(self)@.session_keys
                &&& final(self)@.receiving == old(self)@.receiving
                &&& final(self)@.skipped == old(self)@.skipped
                &&& match old(self)@.session_keys {
                    Some(k) => r->Ok_0@ == OlmMessageV::PreKey(
                        prekey_wire(
                            k.one_time,
                            k.ephemeral,
                            k.identity,
                            spec_sent_message(pre, plaintext@),
                        ),
                    ),
                    None => r->Ok_0@ == OlmMessageV::Normal(spec_sent_message(pre, plaintext@)),
                }
            }),
    {
        let wire = match self.sending_ratchet.send(plaintext) {
            Ok(w) => w,
            Err(e) => {
                return Err(e);
            },
        };
        match &self.session_keys {
            Some(keys) => {
                let framed = messages::encode_prekey(
                    keys.one_time_key().as_bytes().as_slice(),
                    keys.ephemeral_key().as_bytes().as_slice(),
                    keys.identity_key().as_bytes().as_slice(),
                    wire.as_slice(),
                );
                Ok(OlmMessage::PreKey(PreKeyMessage { inner: framed }))
            },
            None => Ok(OlmMessage::Normal(Message { inner: wire })),
        }
    }

    /// Looks for a cached message key of an out-of-order message.
    fn find_skipped_index(&self, ratchet_key: &Vec<u8>, index: u64) -> (r: Option<usize>)
        ensures
            match find_skipped(self@.skipped, ratchet_key@, index as nat) {
                Some(i) => r is Some && r->0 == i,
                None => r is None,
            },
    {
        let ghost sk = self@.skipped;
        proof {
            lemma_find_skipped(sk, ratchet_key@, index as nat);
        }
        let mut i: usize = 0;
        while i < self.skipped_message_keys.len()
            invariant
                sk == self@.skipped,
                sk.len() == self.skipped_message_keys@.len(),
                sk == self.skipped_message_keys@.map_values(|k: SkippedMessageKey| k@),
                0 <= i <= sk.len(),
                forall|j: int| 0 <= j < i ==> !skipped_matches(sk[j], ratchet_key@, index as nat),
                match find_skipped(sk, ratchet_key@, index as nat) {
                    Some(f) => 0 <= f < sk.len() && skipped_matches(sk[f], ratchet_key@, index as nat)
                        && forall|j: int| 0 <= j < f ==> !skipped_matches(
                        sk[j],
                        ratchet_key@,
                        index as nat,
                    ),
                    None => forall|j: int| 0 <= j < sk.len() ==> !skipped_matches(
                        sk[j],
                        ratchet_key@,
                        index as nat,
                    ),
                },
            decreases sk.len() - i,
        {
            let entry = &self.skipped_message_keys[i];
            assert(entry@ == sk[i as int]);
            let same_key = crate::crypto::bytes_eq_ct(
                entry.ratchet_key.as_slice(),
                ratchet_key.as_slice(),
            );
            if same_key && entry.message_key.key_index() == index {
                assert(skipped_matches(sk[i as int], ratchet_key@, index as nat));
                return Some(i);
            }
            i = i + 1;
        }
        None
    }

    /// Caches the message keys of skipped chain positions and evicts
    /// the oldest entries beyond the cache bound.
    #[verifier::loop_isolation(false)]
    fn push_skipped(&mut self, ratchet_key: &Vec<u8>, new_keys: Vec<MessageKey>)
        ensures
            final(self)@.skipped == evict(
                old(self)@.skipped + spec_entries(ratchet_key@, new_keys@),
            ),
            final(self)@.session_keys == old(self)@.session_keys,
            final(self)@.sending == old(self)@.sending,
            final(self)@.receiving == old(self)@.receiving,
    {
        let ghost rk = ratchet_key@;
        let ghost keys0 = new_keys@;
        let ghost target = old(self)@.skipped + spec_entries(rk, keys0);
        let mut remaining = new_keys;
        proof {
            assert(remaining@ =~~= keys0.subrange(0, keys0.len() as int));
            assert(self@.skipped =~~= old(self)@.skipped + spec_entries(
                rk,
                keys0.subrange(0, 0),
            ));
        }
        while remaining.len() > 0
            invariant
                remaining@.len() <= keys0.len(),
                remaining@ == keys0.subrange(
                    keys0.len() - remaining@.len(),
                    keys0.len() as int,
                ),
                self@.skipped == old(self)@.skipped + spec_entries(
                    rk,
                    keys0.subrange(0, keys0.len() - remaining@.len()),
                ),
                self@.session_keys == old(self)@.session_keys,
                self@.sending == old(self)@.sending,
                self@.receiving == old(self)@.receiving,
            decreases remaining@.len(),
        {
            let ghost consumed = keys0.len() - remaining@.len();
            let ghost before = self@.skipped;
            let k = remaining.remove(0);
            proof {
                assert(k == keys0[consumed]);
                assert(remaining@ =~~= keys0.subrange(consumed + 1, keys0.len() as int));
            }
            let entry = SkippedMessageKey {
                ratchet_key: vstd::slice::slice_to_vec(ratchet_key.as_slice()),
                message_key: k,
            };
            let ghost ev = entry@;
            self.skipped_message_keys.push(entry);
            proof {
                assert(ev == spec_entries(rk, keys0)[consumed]);
                assert(self@.skipped =~~= before.push(ev));
                assert(self@.skipped =~~= old(self)@.skipped + spec_entries(
                    rk,
                    keys0.subrange(0, consumed + 1),
                ));
            }
        }
        proof {
            assert(keys0.subrange(0, keys0.len() as int) =~~= keys0);
            assert(self@.skipped =~~= target);
        }
        while self.skipped_message_keys.len() > MAX_SKIPPED_KEYS
            invariant
                self@.skipped.len() <= target.len(),
                self@.skipped.len() >= MAX_SKIPPED_KEYS || self@.skipped.len() == target.len(),
                self@.skipped == target.subrange(
                    target.len() - self@.skipped.len(),
                    target.len() as int,
                ),
                self@.session_keys == old(self)@.session_keys,
                self@.sending == old(self)@.sending,
                self@.receiving == old(self)@.receiving,
            decreases self.skipped_message_keys@.len(),
        {
            let ghost before = self@.skipped;
            self.skipped_message_keys.remove(0);
            proof {
                assert(self@.skipped =~~= before.subrange(1, before.len() as int));
                assert(self@.skipped =~~= target.subrange(
                    target.len() - self@.skipped.len(),
                    target.len() as int,
                ));
            }
        }
        proof {
            assert(self@.skipped =~~= evict(target));
        }
    }

    /// Decrypts one delivered message, never committing any state
    /// change before the message has fully authenticated: a rejected or
    /// inauthentic message leaves the session exactly as it was.  On
    /// the first success the handshake snapshot is discarded.
    fn decrypt_normal(&mut self, wire: &Vec<u8>) -> (r: Result<Vec<u8>, SessionError>)
        requires
            session_wf(old(self)@),
        ensures
            session_wf(final(self)@),
            match spec_receive(old(self)@, wire@) {
                ReceiveOutcome::Fail(e) => r is Err && r->Err_0 == e && final(self)@ == old(self)@,
                ReceiveOutcome::Accept { seed, ciphertext, next } => {
                    &&& (r is Err ==> r->Err_0 == SessionError::AuthenticationFailed && final(self)@ == old(self)@)
                    &&& (r is Ok ==> final(self)@ == next)
                    &&& (forall|pt: Seq<u8>|
                        ciphertext == spec_ciphertext(seed, pt) ==> r is Ok && r->Ok_0@ == pt)
                },
            },
    {
        let ghost s0 = self@;
        let d = match messages::decode_message(wire.as_slice()) {
            Err(e) => {
                return Err(e);
            },
            Ok(d) => d,
        };
        let ghost dv = spec_decode(wire@)->0;
        let n = wire.len();
        let body = vstd::slice::slice_subrange(wire.as_slice(), 0, n - 8);
        proof {
            assert(body@ == wire@.subrange(0, wire@.len() - 8));
        }
        let on_current = match &self.receiving_ratchet {
            Some(remote) => remote.belongs_to(&d.ratchet_key),
            None => false,
        };
        if on_current {
            match &self.receiving_ratchet {
                Some(remote) => {
                    let ghost chain0 = remote@.chain;
                    if d.index < remote.chain_index() {
                        proof {
                            lemma_find_skipped(s0.skipped, dv.ratchet_key, dv.index);
                        }
                        match self.find_skipped_index(&d.ratchet_key, d.index) {
                            None => Err(SessionError::SkippedKeyExhausted),
                            Some(i) => {
                                let seed = vstd::slice::slice_to_vec(
                                    self.skipped_message_keys[i].message_key.seed_bytes().as_slice(),
                                );
                                proof {
                                    assert(seed@ == s0.skipped[i as int].seed);
                                }
                                match message_key::decrypt_with_seed(
                                    seed.as_slice(),
                                    body,
                                    d.ciphertext.as_slice(),
                                    d.mac.as_slice(),
                                ) {
                                    Err(e) => Err(e),
                                    Ok(pt) => {
                                        let ghost before = self@.skipped;
                                        self.skipped_message_keys.remove(i);
                                        self.session_keys = None;
                                        proof {
                                            assert(self@.skipped =~~= before.remove(i as int));
                                        }
                                        Ok(pt)
                                    },
                                }
                            },
                        }
                    } else if d.index == u64::MAX {
                        Err(SessionError::ProtocolStateError)
                    } else if d.index - remote.chain_index() > MAX_MESSAGE_GAP {
                        Err(SessionError::SkippedKeyExhausted)
                    } else {
                        let (seed, next_remote, skipped_new) = remote.receive_seed(d.index);
                        let ghost gap = (dv.index - chain0.index) as nat;
                        match message_key::decrypt_with_seed(
                            seed.as_slice(),
                            body,
                            d.ciphertext.as_slice(),
                            d.mac.as_slice(),
                        ) {
                            Err(e) => Err(e),
                            Ok(pt) => {
                                self.receiving_ratchet = Some(next_remote);
                                self.push_skipped(&d.ratchet_key, skipped_new);
                                self.session_keys = None;
                                proof {
                                    assert(spec_entries(dv.ratchet_key, skipped_new@)
                                        =~~= new_skipped_entries(dv.ratchet_key, chain0, gap));
                                }
                                Ok(pt)
                            },
                        }
                    }
                },
                None => {
                    proof {
                        assert(false);
                    }
                    Err(SessionError::ProtocolStateError)
                },
            }
        } else {
            match &self.sending_ratchet {
                LocalDoubleRatchet::Inactive(_) => Err(SessionError::ProtocolStateError),
                LocalDoubleRatchet::Active(active) => {
                    let pk = match Curve25519PublicKey::from_bytes(
                        vstd::slice::slice_to_vec(d.ratchet_key.as_slice()),
                    ) {
                        Ok(pk) => pk,
                        Err(_) => {
                            proof {
                                assert(false);
                            }
                            return Err(SessionError::DecodeError);
                        },
                    };
                    let (inactive_new, remote_new) = active.advance(&pk);
                    let ghost chain0 = remote_new@.chain;
                    if d.index == u64::MAX {
                        Err(SessionError::ProtocolStateError)
                    } else if d.index > MAX_MESSAGE_GAP {
                        Err(SessionError::SkippedKeyExhausted)
                    } else {
                        let (seed, next_remote, skipped_new) = remote_new.receive_seed(d.index);
                        let ghost gap = dv.index;
                        match message_key::decrypt_with_seed(
                            seed.as_slice(),
                            body,
                            d.ciphertext.as_slice(),
                            d.mac.as_slice(),
                        ) {
                            Err(e) => Err(e),
                            Ok(pt) => {
                                self.sending_ratchet = LocalDoubleRatchet::wrap_inactive(
                                    inactive_new,
                                );
                                self.receiving_ratchet = Some(next_remote);
                                self.push_skipped(&d.ratchet_key, skipped_new);
                                self.session_keys = None;
                                proof {
                                    assert(spec_entries(dv.ratchet_key, skipped_new@)
                                        =~~= new_skipped_entries(dv.ratchet_key, chain0, gap));
                                }
                                Ok(pt)
                            },
                        }
                    }
                },
            }
        }
    }

    /// Decrypts a wire envelope: a pre-key message is unwrapped first,
    /// its embedded handshake keys being informational only.
    pub fn decrypt(&mut self, message: &OlmMessage) -> (r: Result<Vec<u8>, SessionError>)
        requires
            session_wf(old(self)@),
        ensures
            session_wf(final(self)@),
            match spec_session_receive(old(self)@, message@) {
                ReceiveOutcome::Fail(e) => r is Err && r->Err_0 == e && final(self)@ == old(self)@,
                ReceiveOutcome::Accept { seed, ciphertext, next } => {
                    &&& (r is Err ==> r->Err_0 == SessionError::AuthenticationFailed && final(self)@ == old(self)@)
                    &&& (r is Ok ==> final(self)@ == next)
                    &&& (forall|pt: Seq<u8>|
                        ciphertext == spec_ciphertext(seed, pt) ==> r is Ok && r->Ok_0@ == pt)
                },
            },
    {
        match message {
            OlmMessage::Normal(m) => self.decrypt_normal(&m.inner),
            OlmMessage::PreKey(m) => match messages::decode_prekey(m.inner.as_slice()) {
                Err(e) => Err(e),
                Ok(parts) => self.decrypt_normal(&parts.message),
            },
        }
    }

    /// The pure predicate the owning client uses to pick among candidate
    /// sessions for an inbound pre-key message: it holds exactly when
    /// this session still carries its handshake snapshot and the
    /// message's embedded keys match that snapshot and the claimed peer
    /// identity key.
    pub fn matches_inbound_session_from(
        &self,
        their_identity_key: &Curve25519PublicKey,
        message: &PreKeyMessage,
    ) -> (r: bool)
        ensures
            r == match (self@.session_keys, spec_decode_prekey(message@)) {
                (Some(k), Some(p)) => k.identity == p.identity_key && k.identity
                    == their_identity_key@ && k.one_time == p.one_time_key && k.ephemeral
                    == p.ephemeral_key,
                _ => false,
            },
    {
        let parts = match messages::decode_prekey(message.inner.as_slice()) {
            Err(_) => {
                return false;
            },
            Ok(p) => p,
        };
        match &self.session_keys {
            None => false,
            Some(keys) => {
                let identity_matches = crate::crypto::bytes_eq_ct(
                    keys.identity_key().as_bytes().as_slice(),
                    parts.identity_key.as_slice(),
                ) && crate::crypto::bytes_eq_ct(
                    keys.identity_key().as_bytes().as_slice(),
                    their_identity_key.as_bytes().as_slice(),
                );
                let one_time_matches = crate::crypto::bytes_eq_ct(
                    keys.one_time_key().as_bytes().as_slice(),
                    parts.one_time_key.as_slice(),
                );
                let ephemeral_matches = crate::crypto::bytes_eq_ct(
                    keys.ephemeral_key().as_bytes().as_slice(),
                    parts.ephemeral_key.as_slice(),
                );
                identity_matches && one_time_matches && ephemeral_matches
            },
        }
    }
}

/// The round-trip law at session start: the first wire message an
/// initiator session produces for a plaintext is accepted by the
/// responder session built from the same shared secret and the
/// initiator's announced ratchet key; both sides derive the message
/// seed of the initial chain at index 0, the delivered ciphertext is
/// the encryption of the plaintext under that seed (so decryption
/// returns exactly the plaintext), the responder's chain moves to
/// index 1, and its handshake-free state carries no session keys.
/// The one hypothesis beyond key sizes restates that an HMAC-SHA-256
/// tag is 32 bytes long, which every execution establishes.
pub proof fn lemma_first_message_round_trip(
    shared: Seq<u8>,
    keys: SessionKeysV,
    sk: Seq<u8>,
    pt: Seq<u8>,
)
    requires
        session_keys_wf(keys),
        sk.len() == 32,
        curve_base(sk).len() == 32,
        forall|key: Seq<u8>, data: Seq<u8>| (#[trigger] crate::crypto::hmac_sha256(key, data)).len() == 32,
    ensures
        ({
            let a = initiator_initial(shared, keys, sk);
            let b = responder_initial(shared, curve_base(sk));
            let active = a.sending->Active_0;
            let wire = spec_sent_message(active, pt);
            let envelope = OlmMessageV::PreKey(
                prekey_wire(keys.one_time, keys.ephemeral, keys.identity, wire),
            );
            match spec_session_receive(b, envelope) {
                ReceiveOutcome::Accept { seed, ciphertext, next } => {
                    &&& seed == chain_seed(initial_chain(shared))
                    &&& ciphertext == spec_ciphertext(seed, pt)
                    &&& next.receiving->0.chain == chain_next(
                        ChainKeyV { key: initial_chain(shared), index: 0 },
                    )
                    &&& next.session_keys is None
                },
                ReceiveOutcome::Fail(_) => false,
            }
        }),
{
    let a = initiator_initial(shared, keys, sk);
    let b = responder_initial(shared, curve_base(sk));
    let active = a.sending->Active_0;
    let seed = chain_seed(initial_chain(shared));
    let ct = spec_ciphertext(seed, pt);
    let body = message_body(curve_base(sk), 0, ct);
    let mac = mac8(seed, body);
    let wire = spec_sent_message(active, pt);
    assert(wire == body + mac);
    crate::messages::lemma_decode_prekey_wire(keys.one_time, keys.ephemeral, keys.identity, wire);
    crate::messages::lemma_decode_message_wire(curve_base(sk), 0, ct, mac);
    let d = spec_decode(wire)->0;
    assert(wire.subrange(0, wire.len() - 8) =~~= body);
    let chain0 = ChainKeyV { key: initial_chain(shared), index: 0 };
    assert(chain_after(chain0, 0) == chain0);
    assert(d.mac == mac8(seed, wire.subrange(0, wire.len() - 8)));
    let outcome = spec_session_receive(b, OlmMessageV::PreKey(
        prekey_wire(keys.one_time, keys.ephemeral, keys.identity, wire),
    ));
    match outcome {
        ReceiveOutcome::Accept { seed: s2, ciphertext: c2, next } => {
            assert(b.skipped + new_skipped_entries(d.ratchet_key, chain0, 0) =~~= Seq::<
                SkippedV,
            >::empty());
        },
        ReceiveOutcome::Fail(_) => {
            assert(false);
        },
    }
}

/// The out-of-order law on the initial chain: when the second message
/// of a fresh session arrives before the first, the second is accepted
/// and the skipped first position's key is cached; the first message
/// then still decrypts from the cache — and only once: a second
/// delivery of it is rejected with `SkippedKeyExhausted`.
/// The one hypothesis beyond key sizes restates that an HMAC-SHA-256
/// tag is 32 bytes long, which every execution establishes.
pub proof fn lemma_out_of_order_first_two(
    shared: Seq<u8>,
    keys: SessionKeysV,
    sk: Seq<u8>,
    pt0: Seq<u8>,
    pt1: Seq<u8>,
)
    requires
        session_keys_wf(keys),
        sk.len() == 32,
        curve_base(sk).len() == 32,
        forall|key: Seq<u8>, data: Seq<u8>| (#[trigger] crate::crypto::hmac_sha256(key, data)).len() == 32,
    ensures
        ({
            let b = responder_initial(shared, curve_base(sk));
            let active = initiator_initial(shared, keys, sk).sending->Active_0;
            let wire0 = spec_sent_message(active, pt0);
            let wire1 = spec_sent_message(spec_after_send(active), pt1);
            match spec_receive(b, wire1) {
                ReceiveOutcome::Accept { seed: s1, ciphertext: c1, next: b1 } => {
                    &&& c1 == spec_ciphertext(s1, pt1)
                    &&& match spec_receive(b1, wire0) {
                        ReceiveOutcome::Accept { seed: s0, ciphertext: c0, next: b2 } => {
                            &&& c0 == spec_ciphertext(s0, pt0)
                            &&& match spec_receive(b2, wire0) {
                                ReceiveOutcome::Fail(e) => e
                                    == SessionError::SkippedKeyExhausted,
                                ReceiveOutcome::Accept { .. } => false,
                            }
                        },
                        ReceiveOutcome::Fail(_) => false,
                    }
                },
                ReceiveOutcome::Fail(_) => false,
            }
        }),
{
    let b = responder_initial(shared, curve_base(sk));
    let active = initiator_initial(shared, keys, sk).sending->Active_0;
    let rk = curve_base(sk);
    let chain0 = ChainKeyV { key: initial_chain(shared), index: 0 };
    assert(chain_after(chain0, 0) == chain0);
    assert(chain_after(chain0, 1) == chain_next(chain0));

    let seed1 = chain_seed(chain_next(chain0).key);
    let ct1 = spec_ciphertext(seed1, pt1);
    let body1 = message_body(rk, 1, ct1);
    let mac1 = mac8(seed1, body1);
    let wire1 = spec_sent_message(spec_after_send(active), pt1);
    assert(wire1 == body1 + mac1);
    crate::messages::lemma_decode_message_wire(rk, 1, ct1, mac1);
    assert(wire1.subrange(0, wire1.len() - 8) =~~= body1);

    let seed0 = chain_seed(chain0.key);
    let ct0 = spec_ciphertext(seed0, pt0);
    let body0 = message_body(rk, 0, ct0);
    let mac0 = mac8(seed0, body0);
    let wire0 = spec_sent_message(active, pt0);
    assert(wire0 == body0 + mac0);
    crate::messages::lemma_decode_message_wire(rk, 0, ct0, mac0);
    assert(wire0.subrange(0, wire0.len() - 8) =~~= body0);

    let cached = SkippedV { ratchet_key: rk, index: 0, seed: seed0 };
    match spec_receive(b, wire1) {
        ReceiveOutcome::Accept { seed: s1, ciphertext: c1, next: b1 } => {
            assert(b.skipped + new_skipped_entries(rk, chain0, 1) =~~= seq![cached]);
            assert(b1.skipped =~~= seq![cached]);
            assert(b1.receiving->0.chain.index == 2);
            match spec_receive(b1, wire0) {
                ReceiveOutcome::Accept { seed: s0, ciphertext: c0, next: b2 } => {
                    assert(find_skipped(b1.skipped, rk, 0) == Some(0int));
                    assert(s0 == seed0);
                    assert(b2.skipped =~~= Seq::<SkippedV>::empty());
                    match spec_receive(b2, wire0) {
                        ReceiveOutcome::Fail(e) => {
                            assert(find_skipped(b2.skipped, rk, 0) is None);
                        },
                        ReceiveOutcome::Accept { .. } => {
                            assert(find_skipped(b2.skipped, rk, 0) is None);
                            assert(false);
                        },
                    }
                },
                ReceiveOutcome::Fail(_) => {
                    assert(find_skipped(b1.skipped, rk, 0) == Some(0int));
                    assert(false);
                },
            }
        },
        ReceiveOutcome::Fail(_) => {
            assert(false);
        },
    }
}

/// The round-trip law for every in-order message: whenever the
/// receiver's chain agrees with the sender's active ratchet (as it
/// does after the handshake and after each delivered message), the
/// next message the sender produces is accepted, its ciphertext is the
/// encryption of the plaintext under the seed both sides derive, and
/// the receiver's chain advances in step with the sender's — so the
/// agreement is preserved and any number of consecutive messages round
/// trips.  The last hypothesis restates that an HMAC-SHA-256 tag is
/// 32 bytes long, which every execution establishes.
pub proof fn lemma_in_sync_round_trip(b: SessionV, a: ActiveV, pt: Seq<u8>)
    requires
        a.ratchet_pub.len() == 32,
        a.chain.index < u64::MAX,
        b.receiving is Some,
        b.receiving->0 == (RemoteRatchetV { remote_key: a.ratchet_pub, chain: a.chain }),
        forall|key: Seq<u8>, data: Seq<u8>| (#[trigger] crate::crypto::hmac_sha256(key, data)).len() == 32,
    ensures
        match spec_receive(b, spec_sent_message(a, pt)) {
            ReceiveOutcome::Accept { seed, ciphertext, next } => {
                &&& seed == chain_seed(a.chain.key)
                &&& ciphertext == spec_ciphertext(seed, pt)
                &&& next.receiving is Some
                &&& next.receiving->0 == (RemoteRatchetV {
                    remote_key: spec_after_send(a).ratchet_pub,
                    chain: spec_after_send(a).chain,
                })
                &&& next.sending == b.sending
                &&& next.skipped == evict(b.skipped)
                &&& next.session_keys is None
            },
            ReceiveOutcome::Fail(_) => false,
        },
{
    let seed = chain_seed(a.chain.key);
    let ct = spec_ciphertext(seed, pt);
    let body = message_body(a.ratchet_pub, a.chain.index, ct);
    let mac = mac8(seed, body);
    let wire = spec_sent_message(a, pt);
    assert(wire == body + mac);
    crate::messages::lemma_decode_message_wire(a.ratchet_pub, a.chain.index, ct, mac);
    assert(wire.subrange(0, wire.len() - 8) =~~= body);
    assert(chain_after(a.chain, 0) == a.chain);
    match spec_receive(b, wire) {
        ReceiveOutcome::Accept { seed: s2, ciphertext: c2, next } => {
            assert(b.skipped + new_skipped_entries(a.ratchet_pub, a.chain, 0) =~~= b.skipped);
            assert(next.skipped == evict(b.skipped));
        },
        ReceiveOutcome::Fail(_) => {
            assert(false);
        },
    }
}

/// The DH-ratchet-step round trip: a session whose sending ratchet is
/// active (the initiator after the handshake) accepts the first
/// message its peer sends after activating with a fresh ratchet key,
/// recovers the plaintext, and resets its own sending side to inactive
/// with exactly the root key the peer now holds — the two sides stay
/// synchronized across the step.  The Diffie-Hellman agreement
/// (`curve_mul(a, curve_base(b)) == curve_mul(b, curve_base(a))`) and
/// the HMAC tag length, which every execution obtains from the
/// primitives themselves, enter as hypotheses.
pub proof fn lemma_ratchet_step_round_trip(s: SessionV, sk1: Seq<u8>, pt: Seq<u8>)
    requires
        s.sending is Active,
        s.sending->Active_0.ratchet_pub == curve_base(s.sending->Active_0.ratchet_sk),
        curve_base(sk1).len() == 32,
        match s.receiving {
            None => true,
            Some(r) => r.remote_key != curve_base(sk1),
        },
        curve_mul(s.sending->Active_0.ratchet_sk, curve_base(sk1)) == curve_mul(
            sk1,
            curve_base(s.sending->Active_0.ratchet_sk),
        ),
        forall|key: Seq<u8>, data: Seq<u8>| (#[trigger] crate::crypto::hmac_sha256(key, data)).len() == 32,
    ensures
        ({
            let a0 = s.sending->Active_0;
            let sender = crate::double_ratchet::spec_activate(
                InactiveV { root: a0.root, remote_key: a0.ratchet_pub },
                sk1,
            );
            let wire = spec_sent_message(sender, pt);
            match spec_receive(s, wire) {
                ReceiveOutcome::Accept { seed, ciphertext, next } => {
                    &&& seed == chain_seed(sender.chain.key)
                    &&& ciphertext == spec_ciphertext(seed, pt)
                    &&& next.sending == LocalRatchetV::Inactive(
                        InactiveV { root: sender.root, remote_key: sender.ratchet_pub },
                    )
                    &&& next.receiving is Some
                    &&& next.receiving->0.chain == chain_next(sender.chain)
                    &&& next.session_keys is None
                },
                ReceiveOutcome::Fail(_) => false,
            }
        }),
{
    let a0 = s.sending->Active_0;
    let sender = crate::double_ratchet::spec_activate(
        InactiveV { root: a0.root, remote_key: a0.ratchet_pub },
        sk1,
    );
    let seed = chain_seed(sender.chain.key);
    let ct = spec_ciphertext(seed, pt);
    let body = message_body(sender.ratchet_pub, 0, ct);
    let mac = mac8(seed, body);
    let wire = spec_sent_message(sender, pt);
    assert(wire == body + mac);
    crate::messages::lemma_decode_message_wire(sender.ratchet_pub, 0, ct, mac);
    assert(wire.subrange(0, wire.len() - 8) =~~= body);
    let step = spec_ratchet_step(a0, curve_base(sk1));
    assert(step.1.chain.key == sender.chain.key);
    assert(chain_after(step.1.chain, 0) == step.1.chain);
    match spec_receive(s, wire) {
        ReceiveOutcome::Accept { seed: s2, ciphertext: c2, next } => {
            assert(s.skipped + new_skipped_entries(curve_base(sk1), step.1.chain, 0)
                =~~= s.skipped);
        },
        ReceiveOutcome::Fail(_) => {
            assert(false);
        },
    }
}

/// A receiver in step with a sender's active ratchet: its receiving
/// chain is exactly the sender's chain under the sender's ratchet key,
/// and its cache is within bounds.
pub open spec fn synced(b: SessionV, a: ActiveV) -> bool {
    &&& b.receiving is Some
    &&& b.receiving->0 == (RemoteRatchetV { remote_key: a.ratchet_pub, chain: a.chain })
    &&& b.skipped.len() <= MAX_SKIPPED_KEYS
}

/// The receiver's state after the first `n` of the sender's messages
/// have been delivered in order.
pub open spec fn receive_chain_state(
    b: SessionV,
    a: ActiveV,
    pts: Seq<Seq<u8>>,
    n: nat,
) -> SessionV
    decreases n,
{
    if n == 0 {
        b
    } else {
        let prev = receive_chain_state(b, a, pts, (n - 1) as nat);
        let wire = spec_sent_message(
            crate::double_ratchet::after_sends(a, (n - 1) as nat),
            pts[n - 1],
        );
        match spec_receive(prev, wire) {
            ReceiveOutcome::Accept { next, .. } => next,
            ReceiveOutcome::Fail(_) => prev,
        }
    }
}

/// The round-trip law for any number of consecutive messages: from a
/// receiver in step with the sender, every one of the sender's first
/// `pts.len()` messages is accepted in order, each ciphertext is the
/// encryption of its plaintext under the seed both sides derive, and
/// the two sides stay in step throughout.  The quantified hypothesis
/// restates that an HMAC-SHA-256 tag is 32 bytes long, which every
/// execution establishes.
pub proof fn lemma_consecutive_round_trip(b: SessionV, a: ActiveV, pts: Seq<Seq<u8>>, n: nat)
    requires
        synced(b, a),
        a.ratchet_pub.len() == 32,
        a.chain.index + pts.len() <= u64::MAX,
        n <= pts.len(),
        forall|key: Seq<u8>, data: Seq<u8>| (#[trigger] crate::crypto::hmac_sha256(key, data)).len() == 32,
    ensures
        synced(receive_chain_state(b, a, pts, n), crate::double_ratchet::after_sends(a, n)),
        receive_chain_state(b, a, pts, n).skipped == b.skipped,
        n < pts.len() ==> match spec_receive(
            receive_chain_state(b, a, pts, n),
            spec_sent_message(crate::double_ratchet::after_sends(a, n), pts[n as int]),
        ) {
            ReceiveOutcome::Accept { seed, ciphertext, next } => {
                &&& seed == chain_seed(crate::double_ratchet::after_sends(a, n).chain.key)
                &&& ciphertext == spec_ciphertext(seed, pts[n as int])
            },
            ReceiveOutcome::Fail(_) => false,
        },
    decreases n,
{
    crate::double_ratchet::lemma_after_sends_shape(a, n);
    if n == 0 {
        if n < pts.len() {
            lemma_in_sync_round_trip(b, a, pts[0]);
        }
    } else {
        lemma_consecutive_round_trip(b, a, pts, (n - 1) as nat);
        let prev = receive_chain_state(b, a, pts, (n - 1) as nat);
        let a_prev = crate::double_ratchet::after_sends(a, (n - 1) as nat);
        crate::double_ratchet::lemma_after_sends_shape(a, (n - 1) as nat);
        lemma_in_sync_round_trip(prev, a_prev, pts[n - 1]);
        let here = receive_chain_state(b, a, pts, n);
        assert(here.skipped == evict(prev.skipped));
        assert(evict(prev.skipped) == prev.skipped);
        if n < pts.len() {
            lemma_in_sync_round_trip(here, crate::double_ratchet::after_sends(a, n), pts[n as int]);
        }
    }
}

} // verus!