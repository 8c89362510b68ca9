//! Decoder for the Inter-Quake Model binary format, plus the key-state
//! bookkeeping of a free-flying camera.
//!
//! The decoder turns an in-memory model file into one vertex list and one
//! index list per submesh. Every stage is specified against a mathematical
//! description of the file layout over `Seq<u8>`.
//!
//! Scalars that the file stores as 32-bit IEEE-754 numbers travel through
//! this crate as their raw bit patterns; callers reinterpret them.

pub mod bytes;
pub mod error;
pub mod header;
pub mod arrays;
pub mod triangles;
pub mod submesh;
pub mod iqm;
pub mod theorems;
pub mod camera;
