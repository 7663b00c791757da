//! Frame-buffer layout and conversion dispatch for 8-bit video formats:
//! interleaved RGB/RGBA, semi-planar NV12 and planar 4:2:0 (I420).
//!
//! The pixel arithmetic itself is done by a native conversion primitive that the
//! caller invokes; this crate decides everything around it: validation, the
//! canonical planar layout, destination sizing and the plane views handed over.

pub mod error;
pub mod layout;
pub mod sizing;
pub mod convert;
pub mod transform;
