//! Shared size limits for the kernel-visible tables.

use vstd::prelude::*;

verus! {

/// Max number of supported backends at any given time.
pub const MAX_BACKENDS: u32 = 4096;

/// Capacity of the connection-tracking flow table.
pub const MAX_ACTIVE_FLOWS: u32 = 1000000;

pub const LOCALHOST_IP_U32: u32 = 0x7f000001;

} // verus!
