//! Graphics-adapter report types. Live probing of the adapters is an
//! external collaborator; this module holds the data shapes it fills and
//! the vendor-id naming rule.

use vstd::prelude::*;

verus! {

/// A graphics backend family.
#[derive(Debug, Clone, Copy, PartialEq, Eq, Structural)]
pub enum BackendType {
    GL,
    VULKAN,
    DX12,
    METAL,
}

/// What one backend reported for the primary adapter.
#[derive(Debug)]
pub struct BackendInfo {
    pub backend: BackendType,
    pub supported: bool,
    pub driver: Option<String>,
    pub driver_info: Option<String>,
}

/// The marketing name of a PCI vendor identifier.
pub open spec fn spec_vendor_name(vendor: u32) -> Seq<char> {
    if vendor == 0x10DE {
        "NVIDIA"@
    } else if vendor == 0x1002 {
        "AMD"@
    } else if vendor == 0x8086 {
        "Intel"@
    } else {
        "Unknown"@
    }
}

/// Names a PCI vendor identifier.
pub fn vendor_name(vendor: u32) -> (r: &'static str)
    ensures
        r@ == spec_vendor_name(vendor),
{
    if vendor == 0x10DE {
        "NVIDIA"
    } else if vendor == 0x1002 {
        "AMD"
    } else if vendor == 0x8086 {
        "Intel"
    } else {
        "Unknown"
    }
}

} // verus!
