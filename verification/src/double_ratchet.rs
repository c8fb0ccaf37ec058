//! The Diffie-Hellman ratchet state machine: the sending side is either
//! active (it owns a ratchet key pair and a chain key) or inactive (it
//! waits with a root key and the peer's ratchet key until there is
//! something to send); the receiving side tracks the peer's current
//! ratchet key and its chain.

use vstd::prelude::*;

use crate::chain_key::{chain_after, chain_next, chain_seed, ChainKey, ChainKeyV, RemoteChainKey};
use crate::crypto;
use crate::crypto::{curve_base, curve_mul};
use crate::keys::{Curve25519PublicKey, Curve25519SecretKey};
use crate::message_key::{spec_message, MessageKey, MessageKeyV};
use crate::message_key;
use crate::root_key::{advanced_chain, advanced_root, RemoteRootKey, RootKey};
use crate::root_key;
use crate::shared_secret::{initial_chain, initial_root, Shared3DHSecret};
use crate::SessionError;

verus! {

/// The view of an active sending ratchet.
#[verifier::ext_equal]
pub ghost struct ActiveV {
    pub root: Seq<u8>,
    pub ratchet_sk: Seq<u8>,
    pub ratchet_pub: Seq<u8>,
    pub chain: ChainKeyV,
}

/// The view of an inactive sending ratchet.
#[verifier::ext_equal]
pub ghost struct InactiveV {
    pub root: Seq<u8>,
    pub remote_key: Seq<u8>,
}

/// The view of the sending side.
#[verifier::ext_equal]
pub ghost enum LocalRatchetV {
    Inactive(InactiveV),
    Active(ActiveV),
}

/// The view of the receiving side.
#[verifier::ext_equal]
pub ghost struct RemoteRatchetV {
    pub remote_key: Seq<u8>,
    pub chain: ChainKeyV,
}

pub open spec fn active_wf(a: ActiveV) -> bool {
    &&& a.root.len() == 32
    &&& a.ratchet_sk.len() == 32
    &&& a.ratchet_pub == curve_base(a.ratchet_sk)
    &&& a.ratchet_pub.len() == 32
    &&& a.chain.key.len() == 32
    &&& a.chain.index <= u64::MAX
}

pub open spec fn inactive_wf(i: InactiveV) -> bool {
    &&& i.root.len() == 32
    &&& i.remote_key.len() == 32
}

pub open spec fn local_wf(l: LocalRatchetV) -> bool {
    match l {
        LocalRatchetV::Inactive(i) => inactive_wf(i),
        LocalRatchetV::Active(a) => active_wf(a),
    }
}

pub open spec fn remote_wf(r: RemoteRatchetV) -> bool {
    &&& r.remote_key.len() == 32
    &&& r.chain.key.len() == 32
    &&& r.chain.index <= u64::MAX
}

/// Activation: a fresh ratchet key pair is combined with the stored
/// peer ratchet key; the root-key ratchet yields the new root and the
/// fresh sending chain.
pub open spec fn spec_activate(i: InactiveV, sk: Seq<u8>) -> ActiveV {
    let dh = curve_mul(sk, i.remote_key);
    ActiveV {
        root: advanced_root(i.root, dh),
        ratchet_sk: sk,
        ratchet_pub: curve_base(sk),
        chain: ChainKeyV { key: advanced_chain(i.root, dh), index: 0 },
    }
}

/// A DH-ratchet step triggered by a new peer ratchet key: the sending
/// side drops to inactive, the receiving side starts a fresh chain, and
/// both carry state derived from one root-key ratchet advance.
pub open spec fn spec_ratchet_step(a: ActiveV, remote_key: Seq<u8>) -> (InactiveV, RemoteRatchetV) {
    let dh = curve_mul(a.ratchet_sk, remote_key);
    (
        InactiveV { root: advanced_root(a.root, dh), remote_key },
        RemoteRatchetV {
            remote_key,
            chain: ChainKeyV { key: advanced_chain(a.root, dh), index: 0 },
        },
    )
}

/// The state after one message is sent: the chain moves one step.
pub open spec fn spec_after_send(a: ActiveV) -> ActiveV {
    ActiveV { chain: chain_next(a.chain), ..a }
}

/// The wire message an active ratchet produces for `plaintext`.
pub open spec fn spec_sent_message(a: ActiveV, plaintext: Seq<u8>) -> Seq<u8> {
    spec_message(a.ratchet_pub, a.chain.index, chain_seed(a.chain.key), plaintext)
}

/// The sending state after `n` messages have gone out on one chain.
pub open spec fn after_sends(a: ActiveV, n: nat) -> ActiveV
    decreases n,
{
    if n == 0 {
        a
    } else {
        spec_after_send(after_sends(a, (n - 1) as nat))
    }
}

pub proof fn lemma_after_sends_shape(a: ActiveV, n: nat)
    ensures
        after_sends(a, n).chain.index == a.chain.index + n,
        after_sends(a, n).ratchet_pub == a.ratchet_pub,
    decreases n,
{
    if n > 0 {
        lemma_after_sends_shape(a, (n - 1) as nat);
    }
}

/// Key uniqueness within one chain: two different messages sent on one
/// active ratchet announce the same ratchet public key but different
/// chain indices, so no (ratchet key, index) pair is ever used for two
/// message-key derivations on that chain.
pub proof fn lemma_sent_pairs_distinct(a: ActiveV, m: nat, n: nat)
    requires
        m != n,
    ensures
        after_sends(a, m).ratchet_pub == after_sends(a, n).ratchet_pub,
        after_sends(a, m).chain.index != after_sends(a, n).chain.index,
{
    lemma_after_sends_shape(a, m);
    lemma_after_sends_shape(a, n);
}

/// The active state a send goes out on: the current one, or the one
/// that activation with the fresh secret key `sk` produces.
pub open spec fn pre_send_state(l: LocalRatchetV, sk: Seq<u8>) -> ActiveV {
    match l {
        LocalRatchetV::Active(a) => a,
        LocalRatchetV::Inactive(i) => spec_activate(i, sk),
    }
}

/// An inactive sending ratchet.
pub struct InactiveDoubleRatchet {
    root_key: RemoteRootKey,
    ratchet_key: Curve25519PublicKey,
}

/// An active sending ratchet.
pub struct ActiveDoubleRatchet {
    root_key: RootKey,
    ratchet_sk: Curve25519SecretKey,
    ratchet_pub: Curve25519PublicKey,
    chain_key: ChainKey,
}

/// The sending side of the double ratchet.
pub enum LocalDoubleRatchet {
    Inactive(InactiveDoubleRatchet),
    Active(ActiveDoubleRatchet),
}

/// The receiving side of the double ratchet.
pub struct RemoteDoubleRatchet {
    ratchet_key: Curve25519PublicKey,
    chain_key: RemoteChainKey,
}

impl View for InactiveDoubleRatchet {
    type V = InactiveV;

    closed spec fn view(&self) -> InactiveV {
        InactiveV { root: self.root_key@, remote_key: self.ratchet_key@ }
    }
}

impl View for ActiveDoubleRatchet {
    type V = ActiveV;

    closed spec fn view(&self) -> ActiveV {
        ActiveV {
            root: self.root_key@,
            ratchet_sk: self.ratchet_sk@,
            ratchet_pub: self.ratchet_pub@,
            chain: self.chain_key@,
        }
    }
}

impl View for LocalDoubleRatchet {
    type V = LocalRatchetV;

    open spec fn view(&self) -> LocalRatchetV {
        match self {
            LocalDoubleRatchet::Inactive(i) => LocalRatchetV::Inactive(i@),
            LocalDoubleRatchet::Active(a) => LocalRatchetV::Active(a@),
        }
    }
}

impl View for RemoteDoubleRatchet {
    type V = RemoteRatchetV;

    closed spec fn view(&self) -> RemoteRatchetV {
        RemoteRatchetV { remote_key: self.ratchet_key@, chain: self.chain_key@ }
    }
}

impl LocalDoubleRatchet {
    /// The initiator's bootstrap: the shared secret seeds the root and
    /// chain keys and a fresh ratchet key pair is generated at once.
    pub(crate) fn active(shared_secret: Shared3DHSecret) -> (r: Self)
        ensures
            r@ is Active,
            active_wf(r@->Active_0),
            r@->Active_0.root == initial_root(shared_secret@),
            r@->Active_0.chain == (ChainKeyV { key: initial_chain(shared_secret@), index: 0 }),
    {
        let (root_key, chain_key) = shared_secret.expand();
        let ratchet_sk = Curve25519SecretKey::generate();
        let ratchet_pub = ratchet_sk.public_key();
        LocalDoubleRatchet::Active(
            ActiveDoubleRatchet { root_key, ratchet_sk, ratchet_pub, chain_key },
        )
    }

    /// Wraps a ratchet that a DH-ratchet step reset.
    pub(crate) fn wrap_inactive(inactive: InactiveDoubleRatchet) -> (r: Self)
        ensures
            r@ == LocalRatchetV::Inactive(inactive@),
    {
        LocalDoubleRatchet::Inactive(inactive)
    }

    /// The responder's bootstrap: no own ratchet key pair yet.
    pub(crate) fn inactive(root_key: RemoteRootKey, ratchet_key: Curve25519PublicKey) -> (r: Self)
        ensures
            r@ is Inactive,
            r@->Inactive_0 == (InactiveV { root: root_key@, remote_key: ratchet_key@ }),
    {
        LocalDoubleRatchet::Inactive(InactiveDoubleRatchet { root_key, ratchet_key })
    }

    /// Sends one message: an inactive ratchet activates first.  The
    /// only failure is a chain that has reached the last representable
    /// index.
    pub(crate) fn send(&mut self, plaintext: &[u8]) -> (r: Result<Vec<u8>, SessionError>)
        requires
            local_wf(old(self)@),
        ensures
            local_wf(final(self)@),
            r is Err ==> {
                &&& final(self)@ == old(self)@
                &&& r->Err_0 == SessionError::ProtocolStateError
                &&& old(self)@ is Active
                &&& old(self)@->Active_0.chain.index == u64::MAX
            },
            (old(self)@ is Inactive || old(self)@->Active_0.chain.index < u64::MAX) ==> r is Ok,
            r is Ok ==> ({
                let a1 = final(self)@->Active_0;
                let pre = pre_send_state(old(self)@, a1.ratchet_sk);
                &&& final(self)@ is Active
                &&& a1 == spec_after_send(pre)
                &&& r->Ok_0@ == spec_sent_message(pre, plaintext@)
            }),
    {
        match self {
            LocalDoubleRatchet::Inactive(inactive) => {
                let mut active = inactive.activate();
                let wire = active.encrypt(plaintext);
                *self = LocalDoubleRatchet::Active(active);
                Ok(wire)
            },
            LocalDoubleRatchet::Active(active) => {
                if active.chain_index() == u64::MAX {
                    return Err(SessionError::ProtocolStateError);
                }
                Ok(active.encrypt(plaintext))
            },
        }
    }
}

impl InactiveDoubleRatchet {
    /// Generates a fresh ratchet key pair and performs the pending
    /// DH-ratchet step; the new secret key is the one carried by the
    /// returned state.
    pub(crate) fn activate(&self) -> (r: ActiveDoubleRatchet)
        requires
            inactive_wf(self@),
        ensures
            r@ == spec_activate(self@, r@.ratchet_sk),
            active_wf(r@),
    {
        let ratchet_sk = Curve25519SecretKey::generate();
        let ratchet_pub = ratchet_sk.public_key();
        let dh = crypto::curve25519_dh(
            ratchet_sk.as_bytes().as_slice(),
            self.ratchet_key.as_bytes().as_slice(),
        );
        let (root, chain) = root_key::kdf_root_advance(
            self.root_key.as_bytes().as_slice(),
            dh.as_slice(),
        );
        ActiveDoubleRatchet {
            root_key: RootKey::new(root),
            ratchet_sk,
            ratchet_pub,
            chain_key: ChainKey::new(chain),
        }
    }
}

impl ActiveDoubleRatchet {
    /// Encrypts one message on the current chain and advances it.
    pub(crate) fn encrypt(&mut self, plaintext: &[u8]) -> (r: Vec<u8>)
        requires
            active_wf(old(self)@),
            old(self)@.chain.index < u64::MAX,
        ensures
            final(self)@ == spec_after_send(old(self)@),
            active_wf(final(self)@),
            r@ == spec_sent_message(old(self)@, plaintext@),
    {
        let seed = self.chain_key.message_seed();
        let wire = message_key::encrypt_with_seed(
            seed.as_slice(),
            self.ratchet_pub.as_bytes().as_slice(),
            self.chain_key.chain_index(),
            plaintext,
        );
        self.chain_key.advance();
        wire
    }

    /// The chain position the next message will use.
    pub(crate) fn chain_index(&self) -> (r: u64)
        ensures
            r as nat == self@.chain.index,
    {
        self.chain_key.chain_index()
    }

    /// A DH-ratchet step triggered by a new peer ratchet key.
    pub(crate) fn advance(&self, ratchet_key: &Curve25519PublicKey) -> (r: (
        InactiveDoubleRatchet,
        RemoteDoubleRatchet,
    ))
        requires
            active_wf(self@),
            ratchet_key@.len() == 32,
        ensures
            (r.0@, r.1@) == spec_ratchet_step(self@, ratchet_key@),
            inactive_wf(r.0@),
            remote_wf(r.1@),
    {
        let dh = crypto::curve25519_dh(
            self.ratchet_sk.as_bytes().as_slice(),
            ratchet_key.as_bytes().as_slice(),
        );
        let (root, chain) = root_key::kdf_root_advance(self.root_key.as_bytes().as_slice(), dh.as_slice());
        let inactive = InactiveDoubleRatchet {
            root_key: RemoteRootKey::new(root),
            ratchet_key: ratchet_key.duplicate(),
        };
        let remote = RemoteDoubleRatchet {
            ratchet_key: ratchet_key.duplicate(),
            chain_key: RemoteChainKey::new(chain),
        };
        (inactive, remote)
    }
}

impl RemoteDoubleRatchet {
    pub(crate) fn new(ratchet_key: Curve25519PublicKey, chain_key: RemoteChainKey) -> (r: Self)
        ensures
            r@ == (RemoteRatchetV { remote_key: ratchet_key@, chain: chain_key@ }),
    {
        Self { ratchet_key, chain_key }
    }

    /// Whether an announced ratchet key matches this chain.
    pub(crate) fn belongs_to(&self, ratchet_key: &Vec<u8>) -> (r: bool)
        ensures
            r == (self@.remote_key == ratchet_key@),
    {
        crypto::bytes_eq_ct(self.ratchet_key.as_bytes().as_slice(), ratchet_key.as_slice())
    }

    pub(crate) fn chain_index(&self) -> (r: u64)
        ensures
            r as nat == self@.chain.index,
    {
        self.chain_key.chain_index()
    }

    /// Advances a copy of the chain up to `index`: returns the message
    /// seed at `index`, the state of this ratchet after consuming that
    /// message, and the message keys of every skipped position.
    pub(crate) fn receive_seed(&self, index: u64) -> (r: (Vec<u8>, RemoteDoubleRatchet, Vec<
        MessageKey,
    >))
        requires
            remote_wf(self@),
            self@.chain.index <= index,
            index < u64::MAX,
        ensures
            ({
                let gap = (index - self@.chain.index) as nat;
                &&& r.0@ == chain_seed(chain_after(self@.chain, gap).key)
                &&& r.1@ == (RemoteRatchetV {
                    remote_key: self@.remote_key,
                    chain: chain_next(chain_after(self@.chain, gap)),
                })
                &&& remote_wf(r.1@)
                &&& r.2@.len() == gap
                &&& forall|j: int|
                    0 <= j < gap ==> (#[trigger] r.2@[j])@ == (MessageKeyV {
                        seed: chain_seed(chain_after(self@.chain, j as nat).key),
                        index: (self@.chain.index + j) as nat,
                    })
            }),
    {
        let mut chain = self.chain_key.duplicate();
        let mut skipped: Vec<MessageKey> = Vec::new();
        let ghost base = self@.chain;
        while chain.chain_index() < index
            invariant
                base.index <= chain@.index <= index,
                chain@ == chain_after(base, (chain@.index - base.index) as nat),
                chain@.key.len() == 32,
                index < u64::MAX,
                skipped@.len() == chain@.index - base.index,
                forall|j: int|
                    0 <= j < skipped@.len() ==> (#[trigger] skipped@[j])@ == (MessageKeyV {
                        seed: chain_seed(chain_after(base, j as nat).key),
                        index: (base.index + j) as nat,
                    }),
            decreases index - chain@.index,
        {
            let seed = chain.message_seed();
            skipped.push(MessageKey::new(seed, chain.chain_index()));
            chain.advance();
        }
        let seed = chain.message_seed();
        chain.advance();
        let next = RemoteDoubleRatchet {
            ratchet_key: self.ratchet_key.duplicate(),
            chain_key: chain,
        };
        (seed, next, skipped)
    }
}

} // verus!
