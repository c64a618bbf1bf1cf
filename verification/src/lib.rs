//! capnp-sync — the shared synchronisation toolkit.
//!
//! Two halves of one protocol (the `SyncService` schema shared by the
//! finder, the worker and the backends):
//!
//! - [`backend`] — the backend side: the [`backend::ActionPool`] and
//!   [`backend::Records`] traits and a ready [`backend::SyncHandler`] that
//!   answers `pull`/`ack`/`checkIds`/`dump`/`update` over them.
//! - [`client`] — what a client makes of each reply, and
//!   [`distributor`] — the decisions of a central distribution pass.
//!
//! [`ops`] holds the domain model and its wire encoding; [`wire`] the reply
//! messages; [`error`] the error type; [`text`] UTF-8 and decimal text.

pub mod backend;
pub mod client;
pub mod distributor;
pub mod error;
pub mod ops;
pub mod text;
pub mod wire;

pub use capnp;
pub use error::Error;
pub use ops::{Operation, SyncOperations, Team, Window};
