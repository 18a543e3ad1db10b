//! A presence registry: one administrator, one active session, write-once
//! presence records and per-user profiles, kept in a key-value ledger whose
//! records live as long as they are touched.

pub mod auth;
pub mod contract;
pub mod effect;
pub mod error;
pub mod event;
pub mod identity;
pub mod key;
pub mod laws;
pub mod ledger;
pub mod profile;
pub mod rules;
pub mod state;
pub mod ttl;

pub use crate::auth::Authorization;
pub use crate::contract::AttendanceContract;
pub use crate::error::{Error, Failure};
pub use crate::event::Event;
pub use crate::identity::Address;
pub use crate::key::{StorageKey, Value};
pub use crate::ledger::Ledger;
pub use crate::profile::UserProfile;
