//! Dates, times of day and their combination, without a time zone.
//!
//! The types of this crate are verified against mathematical models: a date
//! is a day number, a time of day a count of seconds and nanoseconds, a
//! duration a count of nanoseconds. Each function's contract says in those
//! terms what it returns.

pub mod calendar;
pub mod canonical;
pub mod codec;
pub mod date;
pub mod datetime;
pub mod duration;
pub mod format;
pub mod item;
pub mod names;
pub mod numeric;
pub mod order;
pub mod parse;
pub mod parsed;
pub mod scan;
pub mod strftime;
pub mod text;
pub mod time;
pub mod tokens;

pub use date::{NaiveDate, Weekday};
pub use datetime::NaiveDateTime;
pub use duration::Duration;
pub use format::{DelayedFormat, FormatError};
pub use item::{Fixed, Item, Numeric, Pad};
pub use parsed::Parsed;
pub use scan::ParseError;
pub use time::NaiveTime;
