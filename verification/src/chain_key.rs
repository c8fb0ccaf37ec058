//! The chain-key ratchet: one KDF chain advanced once per message.

use vstd::prelude::*;

use crate::crypto;
use crate::crypto::hmac_sha256;

verus! {

/// The next chain key: HMAC of the constant 0x02 under the current key.
pub open spec fn chain_advance(key: Seq<u8>) -> Seq<u8> {
    hmac_sha256(key, seq![2u8])
}

/// The per-message seed: HMAC of the constant 0x01 under the current key.
pub open spec fn chain_seed(key: Seq<u8>) -> Seq<u8> {
    hmac_sha256(key, seq![1u8])
}

/// The view of a chain key: key bytes and the index of the next message.
#[verifier::ext_equal]
pub ghost struct ChainKeyV {
    pub key: Seq<u8>,
    pub index: nat,
}

/// One symmetric-ratchet step at the view level.
pub open spec fn chain_next(c: ChainKeyV) -> ChainKeyV {
    ChainKeyV { key: chain_advance(c.key), index: c.index + 1 }
}

/// `n` symmetric-ratchet steps at the view level.
pub open spec fn chain_after(c: ChainKeyV, n: nat) -> ChainKeyV
    decreases n,
{
    if n == 0 {
        c
    } else {
        chain_next(chain_after(c, (n - 1) as nat))
    }
}

/// The sending side's chain key.
pub struct ChainKey {
    pub(crate) key: Vec<u8>,
    pub(crate) index: u64,
}

/// The receiving side's chain key.
pub struct RemoteChainKey {
    pub(crate) key: Vec<u8>,
    pub(crate) index: u64,
}

impl View for ChainKey {
    type V = ChainKeyV;

    closed spec fn view(&self) -> ChainKeyV {
        ChainKeyV { key: self.key@, index: self.index as nat }
    }
}

impl View for RemoteChainKey {
    type V = ChainKeyV;

    closed spec fn view(&self) -> ChainKeyV {
        ChainKeyV { key: self.key@, index: self.index as nat }
    }
}

impl ChainKey {
    pub(crate) fn new(key: Vec<u8>) -> (r: Self)
        ensures
            r@ == (ChainKeyV { key: key@, index: 0 }),
    {
        Self { key, index: 0 }
    }

    /// The seed of the message at the chain's current index.
    pub(crate) fn message_seed(&self) -> (r: Vec<u8>)
        ensures
            r@ == chain_seed(self@.key),
            r@.len() == 32,
    {
        let label: Vec<u8> = vec![1u8];
        assert(label@ =~= seq![1u8]);
        crypto::hmac_sha256_tag(self.key.as_slice(), label.as_slice())
    }

    /// One ratchet step: replaces the key, increments the index.
    pub(crate) fn advance(&mut self)
        requires
            old(self)@.index < u64::MAX,
        ensures
            final(self)@ == chain_next(old(self)@),
            final(self)@.key.len() == 32,
    {
        let label: Vec<u8> = vec![2u8];
        assert(label@ =~= seq![2u8]);
        self.key = crypto::hmac_sha256_tag(self.key.as_slice(), label.as_slice());
        self.index = self.index + 1;
    }

    /// The index the chain will use for the next message.
    pub fn chain_index(&self) -> (r: u64)
        ensures
            r as nat == self@.index,
    {
        self.index
    }
}

impl RemoteChainKey {
    pub(crate) fn new(key: Vec<u8>) -> (r: Self)
        ensures
            r@ == (ChainKeyV { key: key@, index: 0 }),
    {
        Self { key, index: 0 }
    }

    pub(crate) fn message_seed(&self) -> (r: Vec<u8>)
        ensures
            r@ == chain_seed(self@.key),
            r@.len() == 32,
    {
        let label: Vec<u8> = vec![1u8];
        assert(label@ =~= seq![1u8]);
        crypto::hmac_sha256_tag(self.key.as_slice(), label.as_slice())
    }

    pub(crate) fn advance(&mut self)
        requires
            old(self)@.index < u64::MAX,
        ensures
            final(self)@ == chain_next(old(self)@),
            final(self)@.key.len() == 32,
    {
        let label: Vec<u8> = vec![2u8];
        assert(label@ =~= seq![2u8]);
        self.key = crypto::hmac_sha256_tag(self.key.as_slice(), label.as_slice());
        self.index = self.index + 1;
    }

    pub(crate) fn duplicate(&self) -> (r: Self)
        ensures
            r@ == self@,
    {
        Self { key: vstd::slice::slice_to_vec(self.key.as_slice()), index: self.index }
    }

    /// The index the chain expects next.
    pub fn chain_index(&self) -> (r: u64)
        ensures
            r as nat == self@.index,
    {
        self.index
    }
}

} // verus!
