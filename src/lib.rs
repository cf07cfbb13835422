//! A host-memory allocator adapter for a native graphics API.
//!
//! Every payload handed out is preceded by a fixed-size tag header that
//! records the request, so that reallocation and free can recover the
//! layout from the payload address alone.

use vstd::prelude::*;

pub mod adapter;
pub mod laws;
pub mod layout;
pub mod tag;

verus! {

} // verus!
