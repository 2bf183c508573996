use vstd::prelude::*;

verus! {

/// Failures of value-level conversions between the domain model and the
/// persisted row representation.
#[derive(Debug)]
pub enum InvalidValueError {
    /// An integer did not fit in the column's signed 64-bit range.
    IntConversion,
    /// A numeric amount was not a valid unsigned 128-bit integer.
    Amount,
    /// A value that must be non-empty was empty.
    Empty,
    /// A byte string did not have the exact required length.
    Slice,
    /// A timestamp was not representable as seconds plus non-negative
    /// sub-second nanoseconds.
    Time,
    /// The stored signer column did not hold a well-formed key list.
    SignerEncoding,
}

/// Failures of signer extraction from an opaque message.
#[derive(Debug, PartialEq, Eq, Structural)]
pub enum ProtosError {
    /// The message payload could not be decoded.
    Decode,
    /// The message type URL carries no registered signer.
    NoSignerInMsg,
}

/// Failures of building the signer registry from a descriptor pool.
#[derive(Debug, PartialEq, Eq, Structural)]
pub enum RegistryError {
    /// A named signer field does not exist on its message.
    FieldNotFound,
}

/// Failures of the store.
#[derive(Debug)]
pub enum StoreError {
    /// The requested row does not exist.
    NotFound,
    /// A row with the same primary key already exists.
    Duplicate,
    /// A value could not be converted to or from its row representation.
    InvalidValue(InvalidValueError),
}

/// Failures of the query façade.
#[derive(Debug)]
pub enum QuerierError {
    /// The store rejected the read.
    Store(StoreError),
}

/// Failures of the indexing pipeline: normalization, signer resolution and
/// persistence.
#[derive(Debug)]
pub enum IndexerError {
    /// Transaction count and execution-result count disagree, or a raw
    /// transaction byte string was empty.
    BlockData,
    /// The block time was outside the representable timestamp range.
    Timestamp,
    /// The block height was zero.
    Height,
    /// Summing gas over a block's transactions overflowed.
    Gas,
    /// The node reported no block hash.
    BlockHash,
    /// The node reported no validators hash.
    ValidatorHash,
    /// The node reported no next-validators hash.
    NextValidatorsHash,
    /// The node reported no consensus hash.
    ConsensusHash,
    /// The raw transaction bytes could not be decoded.
    TxDecodeError,
    /// The execution result's data field was not valid base64.
    TxDataDecodeError,
    /// A signer value was not a valid bech32 address; carries the value.
    Bech32Address(Vec<u8>),
    /// An address was not exactly 20 bytes long.
    Address,
    /// Signer resolution failed; carries the reason.
    Signer(String),
    /// A decoded transaction carried no messages.
    TxMsgsMissing,
    /// The first signer's public key kind is not supported.
    UnsupportedPublicKey,
    /// The number of transactions in a block overflowed the index type.
    TxsInBlock,
    /// A height exceeded the signed 64-bit maximum accepted by the node.
    RpcHeight,
    /// The store rejected a read or write.
    Store(StoreError),
    /// The backfill range was not a valid non-empty closed range.
    BackfillRange,
    /// A nested library failure; carries a description.
    Other(String),
}

} // verus!
