//! What is particular to each backend.

pub mod v4l2;
