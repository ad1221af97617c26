use hwisak_rs::cpu::amd::{eAMDData, AMDData};
use hwisak_rs::cpu::intel::{eIntelData, IntelData};
use hwisak_rs::cpu::{fetch, eCPUDetails, EnumCPUData};
use hwisak_rs::store::{open_store, StoreError};

fn amd_content() -> String {
    let header = "Name,Family,Series,Form Factor,# of CPU Cores,# of Threads,Max. Boost Clock,Base Clock,L1 Cache,L2 Cache,L3 Cache,Default TDP,AMD Configurable TDP,Processor Technology,Unlocked for Overclocking,CPU Socket,PIB,Recommended Cooler,MPK,Max. Operating Temperature,Launch Date,OS Support,PCI Express Version,System Memory Type,Memory Channels,System Memory Specification,Graphics Model,Graphics Core Count,Graphics Frequency,AMD Ryzen AI,Product ID Boxed,Product ID Tray,Product ID MPK,Supported Technologies";
    let row1 = "Ryzen 5 8600G,Phoenix,Ryzen 5,\"Desktops, Boxed Processor\",6,12,Up to 5.0 GHz,3.8 GHz,384KB,6MB,16MB,65W,45-65W,TSMC 4nm FinFET,Yes,AM5,100-100001237BOX,Wraith Stealth,100-100001237MPK,95 C,1/31/2024,\"Windows 11 - 64-Bit Edition\",5.0,DDR5,2,DDR5-5200,AMD Radeon 760M,8,2800 MHz,Available,100-000001237,,,\"AMD EXPO Technology, AMD Ryzen AI\"";
    let row2 = "Ryzen 7 8700G,Phoenix,Ryzen 7,Desktops,8,16,Up to 5.1 GHz,4.2 GHz,512KB,8MB,16MB,65W,45-65W,TSMC 4nm FinFET,Yes,AM5,,,,95 C,1/31/2024,,5.0,DDR5,2,DDR5-5200,AMD Radeon 780M,12,2900 MHz,Available,,,,";
    [header, row1, row2].join("\n")
}

fn intel_content() -> String {
    let header = "Product,Status,Release Date,Code Name,Cores,Threads,Lithography,Max Turbo Freq,Base Freq,TDP,Cache,Cache Info,Max Memory Size,Memory Types,Max Memory Speed,Graphics";
    let row = "Core i7-10700K,Launched,Q2'20,Comet Lake,8,16,14 nm,5.10 GHz,3.80 GHz,125 W,16 MB,Intel Smart Cache,128 GB,\"DDR4-2933\",2933 MHz,Intel UHD Graphics 630";
    [header, row].join("\n")
}

#[test]
fn ingest_then_fetch_by_name_substring() {
    let mut conn = open_store(":memory:").unwrap();
    AMDData::ingest(&mut conn, &vec![amd_content()]).unwrap();
    let got = fetch(&conn, "8600G", EnumCPUData::AMD(eAMDData::Name)).unwrap();
    match got {
        Some(eCPUDetails::AMD(d)) => {
            assert_eq!(d.name, "Ryzen 5 8600G");
            assert_eq!(d.cores, 6);
            assert_eq!(d.overclocking_enabled, Some(true));
        },
        _ => panic!("expected exactly one AMD record"),
    }
}

#[test]
fn fetch_zero_matches_is_absence_not_error() {
    let mut conn = open_store(":memory:").unwrap();
    AMDData::ingest(&mut conn, &vec![amd_content()]).unwrap();
    let got = fetch(&conn, "ThreadRipper 9999", EnumCPUData::AMD(eAMDData::Name)).unwrap();
    assert!(got.is_none());
}

#[test]
fn ingest_twice_is_idempotent() {
    let mut conn = open_store(":memory:").unwrap();
    AMDData::ingest(&mut conn, &vec![amd_content()]).unwrap();
    AMDData::ingest(&mut conn, &vec![amd_content()]).unwrap();
    let got = fetch(&conn, "8700G", EnumCPUData::AMD(eAMDData::Name)).unwrap();
    match got {
        Some(eCPUDetails::AMD(d)) => {
            assert_eq!(d.name, "Ryzen 7 8700G");
            assert_eq!(d.cores, 8);
            assert_eq!(d.threads, 16);
            assert_eq!(d.base_clock_mhz, 4200);
        },
        _ => panic!("expected the single surviving record"),
    }
}

#[test]
fn same_name_across_two_files_keeps_later_values() {
    let first = "h\nRyzen 5 5600X,Vermeer,Ryzen 5,Desktops,6,12,Up to 4.6 GHz,3.7 GHz";
    let second = "h\nRyzen 5 5600X,Vermeer R2,Ryzen 5,Desktops,6,12,Up to 4.65 GHz,3.7 GHz";
    let mut conn = open_store(":memory:").unwrap();
    AMDData::ingest(&mut conn, &vec![first.to_string(), second.to_string()]).unwrap();
    let got = fetch(&conn, "5600X", EnumCPUData::AMD(eAMDData::Name)).unwrap();
    match got {
        Some(eCPUDetails::AMD(d)) => {
            assert_eq!(d.family, "Vermeer R2");
            assert_eq!(d.boost_clock_mhz, 4650);
        },
        _ => panic!("expected the re-released record"),
    }
}

#[test]
fn ingest_then_lookup_round_trips_record() {
    let mut conn = open_store(":memory:").unwrap();
    AMDData::ingest(&mut conn, &vec![amd_content()]).unwrap();
    let parsed = {
        let content = amd_content();
        let line = content.lines().nth(1).unwrap().to_string();
        AMDData::parse_csv_line(&line).unwrap()
    };
    let got = AMDData::fetch(&conn, "Ryzen 5 8600G", EnumCPUData::AMD(eAMDData::Name)).unwrap();
    match got {
        Some(eCPUDetails::AMD(d)) => {
            assert_eq!(d.name, parsed.name);
            assert_eq!(d.family, parsed.family);
            assert_eq!(d.formFactor, parsed.formFactor);
            assert_eq!(d.cores, parsed.cores);
            assert_eq!(d.threads, parsed.threads);
            assert_eq!(d.boost_clock_mhz, parsed.boost_clock_mhz);
            assert_eq!(d.base_clock_mhz, parsed.base_clock_mhz);
            assert_eq!(d.overclocking_enabled, parsed.overclocking_enabled);
            assert_eq!(d.recommended_cooler, parsed.recommended_cooler);
            assert_eq!(d.os_support, parsed.os_support);
            assert_eq!(d.graphics.model, parsed.graphics.model);
            assert_eq!(d.graphics.frequency, parsed.graphics.frequency);
            assert_eq!(d.AMD_RyzenAIEnabled, parsed.AMD_RyzenAIEnabled);
            assert_eq!(d.product_id.boxed, parsed.product_id.boxed);
            assert_eq!(d.product_id.tray, parsed.product_id.tray);
            assert_eq!(d.supported_technologies, parsed.supported_technologies);
        },
        _ => panic!("expected the ingested record back"),
    }
}

#[test]
fn short_line_ingests_with_defaults() {
    let content = "h\nRyzen 3 1200,Summit Ridge,Ryzen 3,Desktops,4";
    let mut conn = open_store(":memory:").unwrap();
    AMDData::ingest(&mut conn, &vec![content.to_string()]).unwrap();
    let got = fetch(&conn, "1200", EnumCPUData::AMD(eAMDData::Name)).unwrap();
    match got {
        Some(eCPUDetails::AMD(d)) => {
            assert_eq!(d.cores, 4);
            assert_eq!(d.threads, 0);
            assert_eq!(d.boost_clock_mhz, 0);
            assert_eq!(d.overclocking_enabled, None);
            assert!(d.os_support.is_empty());
        },
        _ => panic!("a short line must still ingest"),
    }
}

#[test]
fn blank_lines_are_skipped_not_fatal() {
    let content = "h\n\nRyzen 3 1200,Summit Ridge,Ryzen 3,Desktops,4\n   \n";
    let mut conn = open_store(":memory:").unwrap();
    AMDData::ingest(&mut conn, &vec![content.to_string()]).unwrap();
    assert!(fetch(&conn, "1200", EnumCPUData::AMD(eAMDData::Name)).unwrap().is_some());
    // a blank line never becomes a record with an empty name
    assert!(fetch(&conn, "Summit", EnumCPUData::AMD(eAMDData::Family)).unwrap().is_some());
}

#[test]
fn intel_ingest_and_fetch() {
    let mut conn = open_store(":memory:").unwrap();
    IntelData::ingest(&mut conn, &vec![intel_content()]).unwrap();
    let got = fetch(&conn, "10700K", EnumCPUData::Intel(eIntelData::Name)).unwrap();
    match got {
        Some(eCPUDetails::Intel(d)) => {
            assert_eq!(d.name, "Core i7-10700K");
            assert_eq!(d.cores, Some(8));
            assert_eq!(d.max_turbo_freq, Some(5100));
            assert_eq!(d.graphics, Some("Intel UHD Graphics 630".to_string()));
        },
        _ => panic!("expected the Intel record"),
    }
}

#[test]
fn intel_fetch_by_code_name_column() {
    let mut conn = open_store(":memory:").unwrap();
    IntelData::ingest(&mut conn, &vec![intel_content()]).unwrap();
    let got = fetch(&conn, "Comet", EnumCPUData::Intel(eIntelData::CodeName)).unwrap();
    assert!(got.is_some());
    let miss = fetch(&conn, "Meteor", EnumCPUData::Intel(eIntelData::CodeName)).unwrap();
    assert!(miss.is_none());
}

#[test]
fn both_tables_coexist_in_one_store() {
    let mut conn = open_store(":memory:").unwrap();
    AMDData::ingest(&mut conn, &vec![amd_content()]).unwrap();
    IntelData::ingest(&mut conn, &vec![intel_content()]).unwrap();
    assert!(fetch(&conn, "8600G", EnumCPUData::AMD(eAMDData::Name)).unwrap().is_some());
    assert!(fetch(&conn, "10700K", EnumCPUData::Intel(eIntelData::Name)).unwrap().is_some());
}

#[test]
fn ensure_schema_is_idempotent_and_keeps_data() {
    let mut conn = open_store(":memory:").unwrap();
    AMDData::ensure_schema(&mut conn).unwrap();
    AMDData::ingest(&mut conn, &vec![amd_content()]).unwrap();
    AMDData::ensure_schema(&mut conn).unwrap();
    assert!(fetch(&conn, "8600G", EnumCPUData::AMD(eAMDData::Name)).unwrap().is_some());
}

#[test]
fn open_error_is_typed() {
    let r = open_store("/no/such/directory/at/all/cpu.db");
    assert!(matches!(r, Err(StoreError::Open(_))));
}

#[test]
fn query_without_table_is_typed_error() {
    let conn = open_store(":memory:").unwrap();
    let r = fetch(&conn, "8600G", EnumCPUData::AMD(eAMDData::Name));
    assert!(matches!(r, Err(StoreError::Query(_))));
}

#[test]
fn upsert_against_foreign_schema_is_typed_error() {
    let conn_raw = rusqlite::Connection::open_in_memory().unwrap();
    conn_raw
        .execute("CREATE TABLE amd_cpus (name TEXT PRIMARY KEY)", [])
        .unwrap();
    let mut conn = conn_raw;
    let r = AMDData::ingest(&mut conn, &vec![amd_content()]);
    assert!(matches!(r, Err(StoreError::Exec(_))));
}

#[test]
fn empty_ingest_commits_empty_table() {
    let mut conn = open_store(":memory:").unwrap();
    AMDData::ingest(&mut conn, &vec![]).unwrap();
    assert!(fetch(&conn, "", EnumCPUData::AMD(eAMDData::Name)).unwrap().is_none());
}
