//! A client for an analytics collection endpoint, and the local state that
//! goes with it: an identity, the properties that go with every event, and
//! the timers of events.
//!
//! The library decides and composes; it neither sends nor stores. Each
//! operation takes the time as an argument, in milliseconds since the
//! epoch, and hands back what is to be sent, so that it says the same of
//! every call.
//!
//! - [`json`], [`props`] and [`timers`] hold the values that the rest works
//!   on.
//! - [`client`], [`people`], [`groups`], [`utils`] and [`transport`] build
//!   the events, the updates and the requests, and read the answers.
//! - [`plugin`] holds the stored record and the state of one installation.
//! - [`text`] holds what the library does with strings, and the calls whose
//!   contracts it takes without proof: the clock, upper case, the base64
//!   encoder, and the steps in which an address is put together.

pub mod client;
pub mod error;
pub mod groups;
pub mod json;
pub mod people;
pub mod plugin;
pub mod props;
pub mod text;
pub mod timers;
pub mod transport;
pub mod utils;

pub use client::{Config, Event, Mixpanel, Modifiers};
pub use error::Error;
