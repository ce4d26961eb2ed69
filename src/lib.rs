//! A bubble-chamber simulation core: charged particles moving through a
//! uniform magnetic field, decaying, splitting and leaving trails.
//!
//! All quantities are fixed-point numbers with six decimal places, held in
//! `i64` and saturating at a fixed bound (see `fixed`).
pub mod fixed;
pub mod models;
pub mod sim;
pub mod gen;
pub mod frame;
