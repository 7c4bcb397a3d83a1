//! An in-process cache store that keeps scalars, sequences and field maps
//! under one key namespace, with time-to-live expiration and capacity
//! eviction.

pub mod expiry;
pub mod laws;
pub mod memcache;
pub mod model;
pub mod resp;
pub mod scalar;
pub mod store;
pub mod text;

pub use expiry::ExpirationIndex;
pub use model::End;
pub use resp::MixedDs;
pub use scalar::StrValue;
pub use store::Index;
pub use store::TypeMismatch;
pub use store::Value;
