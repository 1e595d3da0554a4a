//! Time-zone resolution: fixed UTC offsets, named zones, and the conversion
//! between local wall-clock date-times and absolute instants.
//!
//! Local time is no straight function of absolute time. Where a zone sets its
//! clocks forward, some local times never occur; where it sets them back,
//! some occur twice. This crate finds the instants that a local time can
//! stand for, chooses among them by a policy that the caller gives, and finds
//! the instant at which a calendar day begins.

pub mod error;
pub mod iso;
pub mod laws;
pub mod options;
pub mod parsers;
pub mod provider;
pub mod timezone;
pub mod unix_time;

pub use crate::error::{ErrorKind, TemporalError};
pub use crate::options::Disambiguation;
pub use crate::provider::TimeZoneProvider;
pub use crate::timezone::{TimeZone, UtcOffset};
pub use crate::unix_time::EpochNanoseconds;
