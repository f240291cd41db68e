//! The local state of one installation.
//!
//! - [`persistence`] holds the record that is stored, with its expiry, and
//!   [`layout`] the form in which it is written.
//! - [`state`] holds the state and the properties that go with every event;
//!   [`startup`] says how it begins, [`identity`] how the identity changes,
//!   [`events`] how an event is composed, and [`membership`] how the groups
//!   of the user are kept.
//! - [`people`] holds the profile operations.
//! - [`laws`] states what holds across these operations.

pub mod builder;
pub mod error;
pub mod events;
pub mod identity;
pub mod laws;
pub mod layout;
pub mod membership;
pub mod people;
pub mod persistence;
pub mod startup;
pub mod state;

pub use builder::Builder;
pub use error::Error;
pub use identity::AliasOutcome;
pub use people::MixpanelPeople;
pub use persistence::{Persistence, PersistenceError, PersistentData, RegisterOptions};
pub use state::MixpanelState;
