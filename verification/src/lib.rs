pub mod crypto;
pub mod decode;
pub mod backfill;
pub mod domain;
pub mod errors;
pub mod live;
pub mod normalize;
pub mod querier;
pub mod record;
pub mod registry;
pub mod signer;
pub mod store;
pub mod types;
pub mod wire;
