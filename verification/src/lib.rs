//! A URL-shortening library: a persisted monotonic counter is turned into a
//! reversible, salt-dependent short code, and the code is persisted with the
//! original URL and later resolved back to it, with optional one-time-use
//! deletion.

use vstd::prelude::*;

pub mod codec;
pub mod service;
pub mod store;

verus! {

/// The minimum length of a generated short code.
pub const CODE_LENGTH: usize = 6;

} // verus!
