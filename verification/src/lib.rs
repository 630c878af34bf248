//! A signal-conditioning pipeline between two device-level event streams.
//!
//! Raw multi-touch position reports are folded into per-slot touch state,
//! reduced to a single representative point (the centroid of the active
//! touches), remapped into a fixed output coordinate space, passed through a
//! jump-confirmation filter with exponential smoothing, and finally
//! rate-limited before being handed to an output device.

pub mod filter;
pub mod gate;
pub mod mapper;
pub mod pipeline;
pub mod point;
pub mod tracker;
