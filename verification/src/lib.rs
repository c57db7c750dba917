//! Alpha-occlusion primitives for a host-driven rendering pipeline.
//!
//! The library models a module that owns a linear byte memory. A host
//! reserves buffers inside that memory, fills them with RGBA8 pixel data,
//! and asks the module to fold an occluder's alpha channel into a target's
//! alpha channel in place. Color channels are never touched.

pub mod alpha;
pub mod memory;
