//! Pattern-driven date/time formatting and compact duration text.
pub mod datetime;
pub mod humanize;
pub mod laws;
pub mod pattern;
pub mod render;
pub mod text;

pub use datetime::{Weekday, Zone, ZonedDateTime};
pub use humanize::{format_human, format_human2, format_human_compact_millis, format_human_millis};
pub use pattern::{fmt, ParseError, Part, SimpleDateFormat};
