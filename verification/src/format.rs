//! Formats that a session can be written in.

pub mod raw;
