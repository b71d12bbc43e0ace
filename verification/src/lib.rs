//! Domain core of a notification backend.
//!
//! The library manages named subscription groups, per-group subscribers and
//! channel-scoped messages. Groups carry an administrative credential (an
//! admin e-mail and an opaque token); deleting a group requires presenting
//! the matching e-mail, and the token is the sole authorization primitive
//! offered to callers. Subscribers link an externally assigned user id to an
//! existing group. Messages are immutable once stored; the only destructive
//! operation on them is a bulk purge of everything strictly older than a
//! cutoff timestamp.
//!
//! The stores own the records and keep the structural invariants (name
//! uniqueness, id assignment, newest-first message order); the services add
//! the domain checks on top (conflict detection, credential-scoped deletion,
//! group-existence preconditions) and surface every failure as a
//! [`NotificationError`]. Transport binding, configuration and persistence
//! plumbing are external collaborators and live outside this crate.

pub mod error;
pub mod laws;
pub mod service;
pub mod store;

pub use error::NotificationError;
pub use service::group::GroupService;
pub use service::message::MessageService;
pub use service::subscriber::SubscriberService;
pub use store::group::{GroupRecord, GroupStore};
pub use store::message::{MessageRecord, MessageStore};
pub use store::subscriber::{SubscriberRecord, SubscriberStore};
