//! Unix timestamp generation around a verified calendar-arithmetic engine.
pub mod argv;
pub mod calendar;
pub mod config;
pub mod datetime;
pub mod delta;
pub mod error;
pub mod find;
pub mod generate;
pub mod offset;
pub mod precision;
pub mod preset;
pub mod read;
pub mod text;
pub mod timedelta;
pub mod unit;
pub mod validate;
