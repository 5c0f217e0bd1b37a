//! A desktop-activity timeline library: an interval-consistent store for
//! labeled time entries backed by SQLite, activity and screenshot records,
//! an adaptive screenshot encoder, and idle-period reconciliation.

pub mod calendar;
pub mod categories;
pub mod db;
pub mod encoder;
pub mod errors;
pub mod export;
pub mod idle;
pub mod intervals;
pub mod process_samples;
pub mod scheduler;
pub mod screenshot;
pub mod search;
pub mod settings;
pub mod strutil;
pub mod time_entries;
pub mod types;
pub mod window_activity;

pub use errors::AppError;
