//! A hardware abstraction layer for image-capture devices.
//!
//! Backends with different buffer models stand behind one interface: a device
//! is opened by address, enumerates its streams and controls, and hands out a
//! stream from which frames are pulled one at a time.

pub mod address;
pub mod control;
pub mod device;
pub mod error;
pub mod format;
pub mod hal;
pub mod image;
pub mod stream;
pub mod text;
pub mod traits;
