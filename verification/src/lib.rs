//! A registry that records, for each token id, the account that owns it.
//!
//! The registry is an explicitly owned value: it starts empty, `set_owner`
//! writes an entry (the last write for a token wins) and `get_owner` reads
//! one, answering with a fixed marker text when the token has no entry.
//! Every operation is stated over the mathematical map from token ids to
//! owner ids that the registry stands for.

pub mod model;
pub mod laws;
pub mod registry;

pub use model::NO_OWNER_FOUND;
pub use registry::NftOwners;
