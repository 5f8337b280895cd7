//! Host-side bookkeeping for running compute shaders: identities of device
//! objects and their live references, caches that find a device object again
//! by its descriptor, and host copies of buffers and textures kept in step
//! with their device copies.
//!
//! The library decides; the caller talks to the device. Each operation that
//! needs the device says what it asks for (a new device buffer of some size, a
//! readback, a write) and takes back what the device produced.

pub mod bind_group;
pub mod buffer;
mod bytes;
pub mod cache;
pub mod canonical;
pub mod compute;
pub mod entry_point;
pub mod id;
pub mod math;
pub mod pipeline;
pub mod texture;
