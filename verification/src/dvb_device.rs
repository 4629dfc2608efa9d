//! Detected DVB receivers.
//!
//! Device discovery walks the sysfs tree and the usb.ids database outside
//! the library; what it finds is carried in plain values.

use vstd::prelude::*;

verus! {

/// One detected DVB adapter and, where the lookup found them, the names of
/// its USB vendor and product.
pub struct DvbDevice {
    pub adapter_name: String,
    pub vendor_id: String,
    pub device_id: String,
    pub vendor_name: Option<String>,
    pub product_name: Option<String>,
}

} // verus!
