//! A small record manager for stocks: named storage locations with a
//! description, a creation instant and the actor who created them.
//!
//! [`StockStore`] keeps the records in insertion order and never holds two
//! records with one id. [`StockService`] allocates ids and offers the four
//! operations on the collection: create, look up by id, update by id and
//! list everything. Every function carries a contract that is checked by
//! Verus; the contracts are stated over the views in [`model`], and
//! [`history`] proves what holds over any run of operations.

pub mod clock;
pub mod error;
pub mod history;
pub mod model;
pub mod service;
pub mod stock;
pub mod store;

pub use crate::error::ServiceError;
pub use crate::error::ServiceResult;
pub use crate::error::StoreError;
pub use crate::service::StockService;
pub use crate::stock::Stock;
pub use crate::store::StockStore;
