pub mod chain_key;
pub mod crypto;
pub mod double_ratchet;
pub mod kdf;
pub mod keys;
pub mod message_key;
pub mod messages;
pub mod root_key;
pub mod session;
pub mod shared_secret;

pub use chain_key::{ChainKey, ChainKeyV, RemoteChainKey};
pub use keys::{Curve25519PublicKey, Curve25519SecretKey, SessionKeys, SessionKeysV};
pub use messages::{DecodedMessage, Message, OlmMessage, PreKeyDecoded, PreKeyMessage};
pub use root_key::{RemoteRootKey, RootKey};
pub use session::{Session, MAX_MESSAGE_GAP, MAX_SKIPPED_KEYS};
pub use shared_secret::{RemoteShared3DHSecret, Shared3DHSecret};

use vstd::prelude::*;

verus! {

/// The error kinds a session operation can report.
#[derive(Clone, Copy, Debug, PartialEq, Eq, Structural)]
pub enum SessionError {
    /// A public key or key pair input was malformed.
    InvalidKey,
    /// A wire message could not be parsed.
    DecodeError,
    /// The message authentication code did not match.
    AuthenticationFailed,
    /// An out-of-order message was too far from the current chain index to recover.
    SkippedKeyExhausted,
    /// The session was not in a state that allows the requested operation.
    ProtocolStateError,
}

} // verus!
