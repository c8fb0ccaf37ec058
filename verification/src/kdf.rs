//! Domain-separation labels for the three KDF uses of the protocol.

use vstd::prelude::*;

verus! {

/// "OLM_ROOT": label of the initial shared-secret expansion.
pub open spec fn root_info() -> Seq<u8> {
    seq![0x4fu8, 0x4c, 0x4d, 0x5f, 0x52, 0x4f, 0x4f, 0x54]
}

/// "OLM_RATCHET": label of the root-key ratchet advance.
pub open spec fn ratchet_info() -> Seq<u8> {
    seq![0x4fu8, 0x4c, 0x4d, 0x5f, 0x52, 0x41, 0x54, 0x43, 0x48, 0x45, 0x54]
}

/// "OLM_KEYS": label of the message-key expansion.
pub open spec fn keys_info() -> Seq<u8> {
    seq![0x4fu8, 0x4c, 0x4d, 0x5f, 0x4b, 0x45, 0x59, 0x53]
}

pub(crate) fn root_info_bytes() -> (r: Vec<u8>)
    ensures
        r@ == root_info(),
{
    let mut v: Vec<u8> = Vec::new();
    v.push(0x4f);
    v.push(0x4c);
    v.push(0x4d);
    v.push(0x5f);
    v.push(0x52);
    v.push(0x4f);
    v.push(0x4f);
    v.push(0x54);
    proof {
        assert(v@ =~= root_info());
    }
    v
}

pub(crate) fn ratchet_info_bytes() -> (r: Vec<u8>)
    ensures
        r@ == ratchet_info(),
{
    let mut v: Vec<u8> = Vec::new();
    v.push(0x4f);
    v.push(0x4c);
    v.push(0x4d);
    v.push(0x5f);
    v.push(0x52);
    v.push(0x41);
    v.push(0x54);
    v.push(0x43);
    v.push(0x48);
    v.push(0x45);
    v.push(0x54);
    proof {
        assert(v@ =~= ratchet_info());
    }
    v
}

pub(crate) fn keys_info_bytes() -> (r: Vec<u8>)
    ensures
        r@ == keys_info(),
{
    let mut v: Vec<u8> = Vec::new();
    v.push(0x4f);
    v.push(0x4c);
    v.push(0x4d);
    v.push(0x5f);
    v.push(0x4b);
    v.push(0x45);
    v.push(0x59);
    v.push(0x53);
    proof {
        assert(v@ =~= keys_info());
    }
    v
}

} // verus!
