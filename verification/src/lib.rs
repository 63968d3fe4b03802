//! A circular buffer with one producing and one consuming end, which can be used from
//! different threads.
//!
//! - [`endpoints`] and [`cbuf`] hold the buffers.
//! - [`ring`] holds what the two ends do, over any [`memory`]; [`shared`] is the memory
//!   that two threads can reach, and [`access`] how an end reaches it.
//! - [`protocol`] says how the two ends use a memory between them, [`model`] what the
//!   operations do to the items in a buffer, [`trace`] which steps they take in memory,
//!   [`index`] how indices wrap around, and [`reading`] what a number was read off.
pub mod access;
pub mod cbuf;
pub mod endpoints;
pub mod index;
pub mod memory;
pub mod model;
pub mod protocol;
pub mod reading;
pub mod ring;
pub mod shared;
pub mod trace;

pub use endpoints::new_scbuf;
pub use endpoints::try_new_scbuf;
pub use endpoints::ConsEnd;
pub use endpoints::ProdEnd;
