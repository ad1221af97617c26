use hwisak_rs::gpu::{vendor_name, BackendInfo, BackendType};
use hwisak_rs::os::OSDetails;
use hwisak_rs::cpu::amd::eAMDData;
use hwisak_rs::cpu::intel::eIntelData;

#[test]
fn vendor_names_by_pci_id() {
    assert_eq!(vendor_name(0x10DE), "NVIDIA");
    assert_eq!(vendor_name(0x1002), "AMD");
    assert_eq!(vendor_name(0x8086), "Intel");
    assert_eq!(vendor_name(0x1234), "Unknown");
}

#[test]
fn backend_info_holds_probe_results() {
    let b = BackendInfo {
        backend: BackendType::VULKAN,
        supported: true,
        driver: Some("driver".to_string()),
        driver_info: None,
    };
    assert!(b.supported);
    assert_eq!(b.backend, BackendType::VULKAN);
}

#[test]
fn os_details_keeps_probed_values() {
    let o = OSDetails::new(
        "Linux".to_string(),
        "6.1".to_string(),
        "Unavailable".to_string(),
        "Unavailable".to_string(),
        "64-bit".to_string(),
        "x86_64".to_string(),
    );
    assert_eq!(o.os_type, "Linux");
    assert_eq!(o.bitness, "64-bit");
}

#[test]
fn amd_column_selectors_name_store_columns() {
    assert_eq!(eAMDData::Name.to_string(), "name");
    assert_eq!(eAMDData::MaxBoostClock.to_string(), "max_boost_clock");
    assert_eq!(eAMDData::GraphicsModel.to_string(), "graphics_model");
    assert_eq!(eAMDData::L1Cache.to_string(), "l1_cache");
}

#[test]
fn intel_column_selectors_name_store_columns() {
    assert_eq!(eIntelData::Name.to_string(), "product");
    assert_eq!(eIntelData::MaxTurboFrequency.to_string(), "max_turbo_freq");
    assert_eq!(eIntelData::Graphics.to_string(), "graphics");
}
