//! Image acquisition and caching for a photo browser: classifying files,
//! turning decoded bytes into packed pixel buffers, and the store that keeps
//! the full-resolution and thumbnail caches consistent while decode jobs are
//! in flight.

pub mod buffer;
pub mod cache;
pub mod catalog;
pub mod codec;
pub mod error;
pub mod format;
pub mod identity;
pub mod identity_set;
pub mod model;
pub mod orientation;
pub mod pixels;
pub mod store;
pub mod thumbnail;
pub mod trusted;
