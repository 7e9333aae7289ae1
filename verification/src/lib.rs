//! Conversion between UTC and TAI, the atomic time scale that counts every leap second.
//!
//! UTC falls behind TAI by one second with every leap second. How far it is behind at a
//! given instant follows from a compiled-in table of the leap seconds published so far
//! and, for instants after that table has expired, from the events that the operating
//! system supplies. [`LeapSeconds`] holds that knowledge and converts between
//! [`UtcDateTime`] and [`TaiDateTime`].

pub mod calendar;
pub mod clock;
pub mod duration;
pub mod instant;
pub mod laws;
pub mod leap_file;
pub mod leap_registry;
pub mod leap_seconds;
pub mod supplementary;
pub mod table;
pub mod text;

pub use duration::Duration;
pub use instant::{TaiDateTime, UtcDateTime};
pub use leap_seconds::{LeapSeconds, Step};
pub use supplementary::SupplementaryTable;
pub use table::{LeapEvent, TimeScale};
