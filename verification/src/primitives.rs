//! The plain values that transactions are made of: addresses, object
//! references, digests and type tags. They carry data and decide nothing.

use vstd::prelude::*;

verus! {

/// The number of an epoch.
pub type EpochId = u64;

/// The version of the protocol.
pub type ProtocolVersion = u64;

/// A time in milliseconds since the Unix epoch.
pub type CheckpointTimestamp = u64;

/// The version of an object.
pub type Version = u64;

/// An account address.
#[derive(Clone, Copy, Debug, PartialEq, Eq, Hash)]
pub struct Address {
    pub bytes: [u8; 32],
}

/// The id of an object.
#[derive(Clone, Copy, Debug, PartialEq, Eq, Hash)]
pub struct ObjectId {
    pub bytes: [u8; 32],
}

/// The digest of an object's contents.
#[derive(Clone, Copy, Debug, PartialEq, Eq, Hash)]
pub struct ObjectDigest {
    pub bytes: [u8; 32],
}

/// The digest of what consensus put out for a commit.
#[derive(Clone, Copy, Debug, PartialEq, Eq, Hash)]
pub struct ConsensusCommitDigest {
    pub bytes: [u8; 32],
}

/// An object at one version, with the digest of its contents.
#[derive(Clone, Copy, Debug, PartialEq, Eq, Hash)]
pub struct ObjectReference {
    pub object_id: ObjectId,
    pub version: Version,
    pub digest: ObjectDigest,
}

/// An object that exists from the first checkpoint on.
#[derive(Clone, Debug, PartialEq, Eq)]
pub struct GenesisObject {
    pub object_id: ObjectId,
    pub version: Version,
    pub contents: Vec<u8>,
    pub owner: Address,
}

/// The name of a module, a type or a function.
#[derive(Clone, Debug, PartialEq, Eq, Hash)]
pub struct Identifier {
    pub name: String,
}

/// The tag of a Move type, in its canonical text: `u8`, `vector<u64>`,
/// `0x2::coin::Coin<0x2::sui::SUI>`.
#[derive(Clone, Debug, PartialEq, Eq, Hash)]
pub struct TypeTag {
    pub canonical: String,
}

} // verus!
