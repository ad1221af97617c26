use hwisak_rs::cpu::amd::{AMDData, FormFactor};
use hwisak_rs::cpu::intel::{IntelData, ProductStatus};

fn ryzen_line() -> String {
    [
        "Ryzen 5 8600G",
        "Phoenix",
        "Ryzen 5",
        "\"Desktops, Boxed Processor\"",
        "6",
        "12",
        "Up to 5.0 GHz",
        "3.8 GHz",
        "384KB",
        "6MB",
        "16MB",
        "65W",
        "45-65W",
        "TSMC 4nm FinFET",
        "Yes",
        "AM5",
        "100-100001237BOX",
        "Wraith Stealth",
        "100-100001237MPK",
        "95 C",
        "1/31/2024",
        "\"Windows 11 - 64-Bit Edition, Ubuntu x86 64-Bit\"",
        "5.0",
        "DDR5",
        "2",
        "DDR5-5200",
        "AMD Radeon 760M",
        "8",
        "2800 MHz",
        "Available",
        "100-000001237",
        "100-000001238",
        "",
        "\"AMD EXPO Technology, AMD Ryzen AI\"",
    ]
    .join(",")
}

#[test]
fn amd_builder_reads_full_line() {
    let d = AMDData::parse_csv_line(&ryzen_line()).unwrap();
    assert_eq!(d.name, "Ryzen 5 8600G");
    assert_eq!(d.family, "Phoenix");
    assert_eq!(d.formFactor, vec![FormFactor::Desktops, FormFactor::BoxedProcessor]);
    assert_eq!(d.cores, 6);
    assert_eq!(d.threads, 12);
    assert_eq!(d.boost_clock_mhz, 5000);
    assert_eq!(d.base_clock_mhz, 3800);
    assert_eq!(d.overclocking_enabled, Some(true));
    assert_eq!(d.recommended_cooler, Some("Wraith Stealth".to_string()));
    assert_eq!(d.operating_temperature_max, 95);
    assert_eq!(
        d.os_support,
        vec!["Windows 11 - 64-Bit Edition".to_string(), "Ubuntu x86 64-Bit".to_string()]
    );
    assert_eq!(d.graphics.model, "AMD Radeon 760M");
    assert_eq!(d.graphics.cores, 8);
    assert_eq!(d.graphics.frequency, 2800);
    assert_eq!(d.AMD_RyzenAIEnabled, Some(true));
    assert_eq!(d.product_id.boxed, Some("100-000001237".to_string()));
    assert_eq!(d.product_id.tray, Some("100-000001238".to_string()));
    assert_eq!(d.product_id.mpk, None);
    assert_eq!(
        d.supported_technologies,
        vec!["AMD EXPO Technology".to_string(), "AMD Ryzen AI".to_string()]
    );
}

#[test]
fn amd_builder_short_line_defaults() {
    // only 5 of 34 expected fields: the rest fall to their defaults
    let d = AMDData::parse_csv_line("Ryzen 3 1200,Summit Ridge,Ryzen 3,Desktops,4").unwrap();
    assert_eq!(d.name, "Ryzen 3 1200");
    assert_eq!(d.cores, 4);
    assert_eq!(d.threads, 0);
    assert_eq!(d.boost_clock_mhz, 0);
    assert_eq!(d.overclocking_enabled, None);
    assert_eq!(d.recommended_cooler, None);
    assert!(d.os_support.is_empty());
    assert!(d.supported_technologies.is_empty());
    assert_eq!(d.graphics.cores, 0);
    assert_eq!(d.product_id.boxed, None);
}

#[test]
fn amd_builder_blank_line_is_skipped() {
    assert!(AMDData::parse_csv_line("").is_err());
    assert!(AMDData::parse_csv_line("   \t ").is_err());
}

#[test]
fn amd_encode_decode_round_trip() {
    let d = AMDData::parse_csv_line(&ryzen_line()).unwrap();
    let row = d.encode_row();
    assert_eq!(row.len(), 34);
    assert_eq!(row[0], "Ryzen 5 8600G");
    assert_eq!(row[4], "6");
    assert_eq!(row[6], "5000");
    assert_eq!(row[14], "true");
    let back = AMDData::decode_row(&row);
    assert_eq!(back.name, d.name);
    assert_eq!(back.formFactor, d.formFactor);
    assert_eq!(back.cores, d.cores);
    assert_eq!(back.boost_clock_mhz, d.boost_clock_mhz);
    assert_eq!(back.overclocking_enabled, d.overclocking_enabled);
    assert_eq!(back.recommended_cooler, d.recommended_cooler);
    assert_eq!(back.os_support, d.os_support);
    assert_eq!(back.product_id.mpk, d.product_id.mpk);
    assert_eq!(back.supported_technologies, d.supported_technologies);
}

fn intel_line() -> String {
    [
        "Core i7-10700K",
        "Launched",
        "Q2'20",
        "Comet Lake",
        "8",
        "16",
        "14 nm",
        "5.10 GHz",
        "3.80 GHz",
        "125 W",
        "16 MB",
        "Intel Smart Cache",
        "128 GB",
        "\"DDR4-2933\"",
        "2933 MHz",
        "Intel UHD Graphics 630",
    ]
    .join(",")
}

#[test]
fn intel_builder_reads_full_line() {
    let d = IntelData::parse_csv_line(&intel_line()).unwrap();
    assert_eq!(d.name, "Core i7-10700K");
    assert_eq!(d.status, ProductStatus::Launched);
    assert_eq!(d.code_name, "Comet Lake");
    assert_eq!(d.cores, Some(8));
    assert_eq!(d.threads, Some(16));
    assert_eq!(d.lithography, Some(14));
    assert_eq!(d.max_turbo_freq, Some(5100));
    assert_eq!(d.base_freq, Some(3800));
    assert_eq!(d.thermal_design_power, Some(125));
    assert_eq!(d.cache, Some(16));
    assert_eq!(d.max_memory_size, Some(128));
    assert_eq!(d.memory_types, vec!["DDR4-2933".to_string()]);
    assert_eq!(d.max_memory_speed, Some(2933));
    assert_eq!(d.graphics, Some("Intel UHD Graphics 630".to_string()));
}

#[test]
fn intel_builder_short_line_pads_with_sentinel() {
    let d = IntelData::parse_csv_line("Atom x5,Discontinued").unwrap();
    assert_eq!(d.name, "Atom x5");
    assert_eq!(d.status, ProductStatus::Discontinued);
    // padded "N/A" cells: absent numbers, empty list, absent graphics
    assert_eq!(d.cores, None);
    assert!(d.memory_types.is_empty());
    assert_eq!(d.graphics, None);
    // text cells keep the sentinel verbatim
    assert_eq!(d.release_date, "N/A");
}

#[test]
fn intel_unknown_status_reads_as_announced() {
    let d = IntelData::parse_csv_line("X,whatever,now").unwrap();
    assert_eq!(d.status, ProductStatus::Announced);
}

#[test]
fn intel_encode_decode_round_trip() {
    let d = IntelData::parse_csv_line(&intel_line()).unwrap();
    let row = d.encode_row();
    assert_eq!(row.len(), 16);
    assert_eq!(row[1], "Launched");
    assert_eq!(row[7], "5100");
    let back = IntelData::decode_row(&row);
    assert_eq!(back.name, d.name);
    assert_eq!(back.status, d.status);
    assert_eq!(back.cores, d.cores);
    assert_eq!(back.max_turbo_freq, d.max_turbo_freq);
    assert_eq!(back.memory_types, d.memory_types);
    assert_eq!(back.graphics, d.graphics);
}
