//! Demux section-filter parameters.
//!
//! The kernel installs a section filter from a filter/mask/mode triple and
//! a PID.  The scanner always uses an all-zeros filter (match any table at
//! the PID) armed to start immediately; the ioctl itself happens outside
//! the library.

use vstd::prelude::*;

verus! {

pub const DMX_FILTER_SIZE: usize = 16;

pub const DMX_IMMEDIATE_START: u32 = 4;

/// A demux section filter: value, mask and mode bytes.
pub struct DmxFilter {
    pub filter: [u8; 16],
    pub mask: [u8; 16],
    pub mode: [u8; 16],
}

/// The parameters of one installed section filter.
pub struct DmxSctFilterParams {
    pub pid: u16,
    pub filter: DmxFilter,
    pub timeout: u32,
    pub flags: u32,
}

/// The parameters the scanner installs for a PID: an all-zeros 16-byte
/// filter and mask (match any table content at the PID), no timeout, and
/// immediate start.
pub fn section_filter_params(pid: u16) -> (r: DmxSctFilterParams)
    ensures
        r.pid == pid,
        forall|i: int| 0 <= i < 16 ==> #[trigger] r.filter.filter@[i] == 0,
        forall|i: int| 0 <= i < 16 ==> #[trigger] r.filter.mask@[i] == 0,
        forall|i: int| 0 <= i < 16 ==> #[trigger] r.filter.mode@[i] == 0,
        r.timeout == 0,
        r.flags == DMX_IMMEDIATE_START,
{
    DmxSctFilterParams {
        pid,
        filter: DmxFilter { filter: [0u8;16], mask: [0u8;16], mode: [0u8;16] },
        timeout: 0,
        flags: DMX_IMMEDIATE_START,
    }
}

} // verus!
