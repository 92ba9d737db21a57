//! What the operations of this crate are for.
//!
//! Each law speaks of calls of the crate's functions: of what went into them and what came out, for
//! every input. It is stated apart from the functions that the contracts are written with: over
//! plain values, over what a sandbox or a session remembers, and over what
//! [`outside`](crate::outside) says that values of other crates hold.

pub mod exchange;
pub mod guest;
pub mod headers;
pub mod session;
pub mod shared;
pub mod tools;
