//! Calibration core for a pair of photometers: decoding of their wire
//! frames, duplicate suppression, sliding sample windows, per-round robust
//! statistics and the aggregation of a final zero-point.
//!
//! All physical quantities are carried as scaled integers so that every
//! computation is exact:
//!   - frequencies in milli-hertz,
//!   - temperatures in centi-degrees,
//!   - zero points in centi-units (two decimals),
//!   - magnitudes in milli-magnitudes (three decimals),
//!   - timestamps in milliseconds since the Unix epoch.
//! The callers that sit at the I/O edge convert device floating-point text
//! into these units and back.

pub mod auxiliary;
pub mod buffer;
pub mod calibration;
pub mod config;
pub mod cristogg;
pub mod discovery;
pub mod json;
pub mod page;
pub mod payload;
pub mod readings;
pub mod structured;
pub mod text;
pub mod update;

use vstd::prelude::*;

verus! {

/// Milliseconds since the Unix epoch, as stamped by a transport when a
/// frame is read.
pub type Timestamp = i64;

/// What travels through the sample channel: a stamped, decoded reading.
pub type Sample = (Timestamp, payload::Payload);

/// Photometer model selected on the command line.
pub enum Model {
    Tessw,
    Tas,
    Tessp,
}

/// Which photometer a stream belongs to.
pub enum Role {
    Refe,
    Test,
}

/// Which calibration operation was requested.
pub struct Operation {
    /// Display photometer info and exit.
    pub dry_run: bool,
    /// Calibrate and write the zero point to the device.
    pub update: bool,
    /// Calibrate but do not touch the store.
    pub test: bool,
}

} // verus!
