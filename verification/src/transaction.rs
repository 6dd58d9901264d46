//! Transactions: what a signer asks for, and the system transactions that
//! validators make themselves. These are records; the logic that runs them
//! is elsewhere.

use vstd::prelude::*;
use crate::primitives::{
    Address, CheckpointTimestamp, ConsensusCommitDigest, EpochId, GenesisObject, Identifier,
    ObjectId, ObjectReference, ProtocolVersion, TypeTag, Version,
};
use crate::user_signature::UserSignature;
use crate::zklogin::{Jwk, JwkId};

verus! {

/// A transaction, before anyone has signed it.
#[derive(Clone, Debug, PartialEq, Eq)]
pub struct Transaction {
    pub kind: TransactionKind,
    pub sender: Address,
    pub gas_payment: GasPayment,
    pub expiration: TransactionExpiration,
}

/// A transaction with the signatures of its signers.
#[derive(Clone, Debug, PartialEq, Eq)]
pub struct SignedTransaction {
    pub transaction: Transaction,
    pub signatures: Vec<UserSignature>,
}

/// Until when a transaction can be signed.
#[derive(Clone, Copy, Debug, PartialEq, Eq, Hash)]
pub enum TransactionExpiration {
    /// The transaction does not expire.
    Never,
    /// Validators sign the transaction only while the current epoch is at
    /// most this one.
    Epoch(EpochId),
}

/// Who pays for the gas, with which objects, and how much.
#[derive(Clone, Debug, PartialEq, Eq)]
pub struct GasPayment {
    pub objects: Vec<ObjectReference>,
    pub owner: Address,
    pub price: u64,
    pub budget: u64,
}

/// New random bytes for the randomness state.
#[derive(Clone, Debug, PartialEq, Eq)]
pub struct RandomnessStateUpdate {
    /// The epoch of the update.
    pub epoch: u64,
    /// The randomness round of the update.
    pub randomness_round: u64,
    /// The new random bytes.
    pub random_bytes: Vec<u8>,
    /// The version at which the randomness object was first shared.
    pub randomness_obj_initial_shared_version: u64,
}

/// What a transaction does.
#[derive(Clone, Debug, PartialEq, Eq)]
pub enum TransactionKind {
    /// Commands of the signer, one after the other.
    ProgrammableTransaction(ProgrammableTransaction),
    /// The change to the next epoch, in its early form.
    ChangeEpoch(ChangeEpoch),
    Genesis(GenesisTransaction),
    ConsensusCommitPrologue(ConsensusCommitPrologue),
    AuthenticatorStateUpdate(AuthenticatorStateUpdate),
    /// The transactions that run at the end of an epoch.
    EndOfEpoch(Vec<EndOfEpochTransactionKind>),
    RandomnessStateUpdate(RandomnessStateUpdate),
    /// As the prologue, with the digest of what consensus put out.
    ConsensusCommitPrologueV2(ConsensusCommitPrologueV2),
}

/// A transaction that can run at the end of an epoch.
#[derive(Clone, Debug, PartialEq, Eq)]
pub enum EndOfEpochTransactionKind {
    ChangeEpoch(ChangeEpoch),
    AuthenticatorStateCreate,
    AuthenticatorStateExpire(AuthenticatorStateExpire),
    RandomnessStateCreate,
    DenyListStateCreate,
}

/// The removal of provider keys that are too old.
#[derive(Clone, Debug, PartialEq, Eq)]
pub struct AuthenticatorStateExpire {
    /// Keys of an epoch before this one expire.
    pub min_epoch: u64,
    /// The version at which the authenticator object was first shared.
    pub authenticator_obj_initial_shared_version: u64,
}

/// New keys of identity providers.
#[derive(Clone, Debug, PartialEq, Eq)]
pub struct AuthenticatorStateUpdate {
    /// The epoch of the update.
    pub epoch: u64,
    /// The consensus round of the update.
    pub round: u64,
    /// The keys that are active from now on.
    pub new_active_jwks: Vec<ActiveJwk>,
    /// The version at which the authenticator object was first shared.
    pub authenticator_obj_initial_shared_version: u64,
}

/// A provider's key that is in use.
#[derive(Clone, Debug, PartialEq, Eq)]
pub struct ActiveJwk {
    pub jwk_id: JwkId,
    pub jwk: Jwk,
    /// The last epoch in which the key was seen to be valid.
    pub epoch: u64,
}

/// What stands at the start of every consensus commit.
#[derive(Clone, Debug, PartialEq, Eq)]
pub struct ConsensusCommitPrologue {
    /// The epoch of the commit.
    pub epoch: u64,
    /// The consensus round of the commit.
    pub round: u64,
    /// The time that consensus gave the commit.
    pub commit_timestamp_ms: CheckpointTimestamp,
}

/// The prologue, with the digest of what consensus put out.
#[derive(Clone, Debug, PartialEq, Eq)]
pub struct ConsensusCommitPrologueV2 {
    /// The epoch of the commit.
    pub epoch: u64,
    /// The consensus round of the commit.
    pub round: u64,
    /// The time that consensus gave the commit.
    pub commit_timestamp_ms: CheckpointTimestamp,
    /// The digest of what consensus put out.
    pub consensus_commit_digest: ConsensusCommitDigest,
}

/// The change to the next epoch.
#[derive(Clone, Debug, PartialEq, Eq)]
pub struct ChangeEpoch {
    /// The epoch that begins.
    pub epoch: EpochId,
    /// The version of the protocol in the new epoch.
    pub protocol_version: ProtocolVersion,
    /// The gas that was charged for storage during the epoch.
    pub storage_charge: u64,
    /// The gas that was charged for computation during the epoch.
    pub computation_charge: u64,
    /// The storage rebate that was paid back to senders.
    pub storage_rebate: u64,
    /// The storage fee that is not paid back.
    pub non_refundable_storage_fee: u64,
    /// When the epoch began.
    pub epoch_start_timestamp_ms: u64,
    /// The system packages that are written before the new epoch starts.
    pub system_packages: Vec<SystemPackage>,
}

/// A system package at one version.
#[derive(Clone, Debug, PartialEq, Eq)]
pub struct SystemPackage {
    pub version: Version,
    pub modules: Vec<Vec<u8>>,
    pub dependencies: Vec<ObjectId>,
}

/// The transaction that makes the first objects.
#[derive(Clone, Debug, PartialEq, Eq)]
pub struct GenesisTransaction {
    pub objects: Vec<GenesisObject>,
}

/// Commands that run one after the other; a command can use what an earlier
/// one gave.
#[derive(Clone, Debug, PartialEq, Eq)]
pub struct ProgrammableTransaction {
    /// The objects and plain values that the commands take.
    pub inputs: Vec<InputArgument>,
    /// The commands. If one fails, the whole transaction fails.
    pub commands: Vec<Command>,
}

/// An input of a programmable transaction.
#[derive(Clone, Debug, PartialEq, Eq)]
pub enum InputArgument {
    /// A plain value, as bytes.
    Pure { value: Vec<u8> },
    /// An object that is immutable or owned by the sender.
    ImmutableOrOwned(ObjectReference),
    /// A shared object, and whether the transaction may change it.
    Shared { object_id: ObjectId, initial_shared_version: u64, mutable: bool },
    /// An object that the transaction receives.
    Receiving(ObjectReference),
}

/// One command of a programmable transaction.
#[derive(Clone, Debug, PartialEq, Eq)]
pub enum Command {
    /// A call of a Move function.
    MoveCall(MoveCall),
    /// Sends objects to an address.
    TransferObjects(TransferObjects),
    /// Splits amounts off a coin.
    SplitCoins(SplitCoins),
    /// Merges coins into one.
    MergeCoins(MergeCoins),
    /// Publishes a Move package.
    Publish(Publish),
    /// Makes a Move vector of values of one type.
    MakeMoveVector(MakeMoveVector),
    /// Upgrades a Move package.
    Upgrade(Upgrade),
}

/// Sends objects to a recipient.
#[derive(Clone, Debug, PartialEq, Eq)]
pub struct TransferObjects {
    pub objects: Vec<Argument>,
    pub recipient: Argument,
}

/// Splits amounts off a coin.
#[derive(Clone, Debug, PartialEq, Eq)]
pub struct SplitCoins {
    pub coin: Argument,
    pub amounts: Vec<Argument>,
}

/// Merges coins into one.
#[derive(Clone, Debug, PartialEq, Eq)]
pub struct MergeCoins {
    pub coin: Argument,
    pub coins_to_merge: Vec<Argument>,
}

/// Publishes a package: its modules, and the packages that it depends on.
#[derive(Clone, Debug, PartialEq, Eq)]
pub struct Publish {
    pub modules: Vec<Vec<u8>>,
    pub dependencies: Vec<ObjectId>,
}

/// Makes a Move vector. The type must be given for values that are no
/// objects, and for an empty vector.
#[derive(Clone, Debug, PartialEq, Eq)]
pub struct MakeMoveVector {
    pub type_: Option<TypeTag>,
    pub entries: Vec<Argument>,
}

/// Upgrades a package: the new modules, what they depend on, the package,
/// and the ticket that allows the upgrade.
#[derive(Clone, Debug, PartialEq, Eq)]
pub struct Upgrade {
    pub modules: Vec<Vec<u8>>,
    pub dependencies: Vec<ObjectId>,
    pub package: ObjectId,
    pub upgrade_ticket: Argument,
}

/// What a command takes.
#[derive(Clone, Copy, Debug, PartialEq, Eq)]
pub enum Argument {
    /// The gas coin.
    GasCoin,
    /// An input of the transaction, by its index.
    Input(u16),
    /// What an earlier command gave, by the command's index.
    Result(u16),
    /// One of several values that an earlier command gave: the command's
    /// index, then the value's.
    NestedResult(u16, u16),
}

/// A call of a Move function.
#[derive(Clone, Debug, PartialEq, Eq)]
pub struct MoveCall {
    /// The package of the module.
    pub package: ObjectId,
    /// The module of the function.
    pub module: Identifier,
    /// The function.
    pub function: Identifier,
    /// The type arguments.
    pub type_arguments: Vec<TypeTag>,
    /// The arguments.
    pub arguments: Vec<Argument>,
}

} // verus!
