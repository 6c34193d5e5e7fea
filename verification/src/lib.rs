//! A persistent asset store: a durable auto-increment id counter and a durable
//! ordered map of encoded records, composed into a four-operation service
//! (get / add / update / delete) over `Asset` records.

pub mod asset;
pub mod codec;
pub mod service;
pub mod stable;

pub use asset::Asset;
pub use asset::AssetPayload;
pub use asset::ServiceError;
pub use service::AssetStore;
