//! Fuel prices per postcode, kept in a store and rendered as gauge lines in
//! the plain-text metrics exposition format.
//!
//! - `station`: one station's reported prices.
//! - `store`: the postcode-to-stations mapping.
//! - `metrics`: rendering a store as exposition text.
//! - `bootstrap`: the all-or-nothing startup sequence that fills the store.
//! - `config`: reading the postcode list, port and radius settings.
//! - `text`: decimal text of numbers.

pub mod station;
pub mod text;
pub mod store;
pub mod metrics;
pub mod bootstrap;
pub mod config;
