//! The verified core of an Earth monitor.
//!
//! Its first part is orbital: where a satellite is, when it passes over an
//! observer, and where on Earth day turns into night. Its second part reads
//! and classifies what the monitor's data feeds deliver, and decides what
//! is worth telling the user.
//!
//! All quantities are whole numbers. Angles are signed micro-degrees,
//! distances are metres, speeds are millimetres per second, instants are
//! Unix seconds, and magnitudes and indices are thousandths. The numeric
//! kernels that need transcendental functions, the propagation model among
//! them, live outside this crate and hand their results over in these
//! units.
//!
//! Orbital part:
//! - [`elements`], [`tle`]: element sets, parsed and as text;
//! - [`epoch`], [`sidereal`], [`geodetic`]: time and frames;
//! - [`propagation`]: what the propagation model returns;
//! - [`timeline`], [`track`]: ground tracks;
//! - [`passes`]: pass prediction;
//! - [`terminator`]: the day and night boundary.
//!
//! Feeds and alerts:
//! - [`feeds`], [`gdacs`], [`models`], [`showers`], [`history`];
//! - [`alerts`], [`notices`], [`settings`].
//!
//! Shared: [`units`], [`text`], [`idset`], [`error`].

pub mod units;
pub mod error;
pub mod text;
pub mod idset;

pub mod elements;
pub mod tle;
pub mod epoch;
pub mod sidereal;
pub mod geodetic;
pub mod propagation;
pub mod timeline;
pub mod track;
pub mod passes;
pub mod terminator;

pub mod feeds;
pub mod gdacs;
pub mod models;
pub mod showers;
pub mod history;
pub mod alerts;
pub mod notices;
pub mod settings;
