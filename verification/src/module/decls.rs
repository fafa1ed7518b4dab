//! Plain records of the binary format: the limits of a table or memory, and
//! a run of local declarations.
use vstd::prelude::*;

verus! {

/// Limits: the initial size, the maximum where `has_max` holds, and a flag.
#[allow(non_camel_case_types)]
pub struct wasm_limits {
    pub initial: u32,
    pub max: u32,
    pub has_max: bool,
    pub flag: bool,
}

/// A run of `count` locals of one type.
#[allow(non_camel_case_types)]
pub struct wasm_localcse_t {
    pub count: u32,
}

} // verus!
