//! Payloads of the events that the host window delivers.

pub mod window_moved;
