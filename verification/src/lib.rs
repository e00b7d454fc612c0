//! A client for a request and response protocol of the Modbus family over a byte
//! stream: the frame codec, and the engine that carries one request at a time over
//! one connection. The crate does no input or output; a driver around it owns the
//! connection and the queue of requests.
//!
//! - [`mbap`] holds the codec, [`framing`] what holds of it on every input.
//! - [`channel`] holds the engine, [`progress`] what holds of it over every run.
//! - [`service`] is what an operation of the protocol has to provide, and
//!   [`read_discrete_inputs`] one such operation.
//! - [`cursor`], [`frame`], [`format`], [`types`], [`endian`] and [`error`] are what
//!   these are built from.

pub mod channel;
pub mod cursor;
pub mod endian;
pub mod error;
pub mod format;
pub mod frame;
pub mod framing;
pub mod mbap;
pub mod progress;
pub mod read_discrete_inputs;
pub mod service;
pub mod types;
