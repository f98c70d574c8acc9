use organizer::disk::{
    detailed_from_capacities, detailed_from_volumes, disk_space_from_volumes,
    parse_capacity_report, parse_df_report, select_volume, DiskError, Volume,
};

fn volume(mount: &str, total: u64, available: u64) -> Volume {
    Volume { mount_point: mount.to_string(), total_bytes: total, available_bytes: available }
}

const DF_SAMPLE: &str = "Filesystem     1024-blocks      Used Available Capacity iused      ifree %iused  Mounted on\n/dev/disk3s1s1   482797652  10549416 170381216     6%  403755 1703812160    0%   /\n";

#[test]
fn df_report_root_line() {
    let d = parse_df_report(DF_SAMPLE).unwrap();
    assert_eq!(d.total_bytes, 482_797_652 * 1024);
    assert_eq!(d.free_bytes, 170_381_216 * 1024);
}

#[test]
fn df_report_errors() {
    assert_eq!(parse_df_report("Filesystem 1024-blocks\n"), Err(DiskError::NoReportLine));
    assert_eq!(parse_df_report(""), Err(DiskError::NoReportLine));
    assert_eq!(parse_df_report("h\n/dev/disk\n"), Err(DiskError::MissingTotal));
    assert_eq!(parse_df_report("h\n/dev/disk lots 1 2\n"), Err(DiskError::BadTotal));
    assert_eq!(parse_df_report("h\n/dev/disk 10 1\n"), Err(DiskError::MissingAvailable));
    assert_eq!(parse_df_report("h\n/dev/disk 10 1 x\n"), Err(DiskError::BadAvailable));
}

#[test]
fn capacity_report_three_fields() {
    let d = parse_capacity_report("994662584320|174470037504|250000000000\n").unwrap();
    assert_eq!(d.total_bytes, 994_662_584_320);
    assert_eq!(d.available_bytes, 174_470_037_504);
    assert_eq!(d.available_with_purgeable_bytes, 250_000_000_000);
    assert_eq!(d.purgeable_bytes, 75_529_962_496);
    assert_eq!(d.used_bytes, 744_662_584_320);
}

#[test]
fn capacity_report_errors() {
    assert_eq!(parse_capacity_report("1|2"), Err(DiskError::WrongFieldCount));
    assert_eq!(parse_capacity_report("1|2|3|4"), Err(DiskError::WrongFieldCount));
    assert_eq!(parse_capacity_report("a|2|3"), Err(DiskError::BadTotal));
    assert_eq!(parse_capacity_report("1| 2|3"), Err(DiskError::BadAvailable));
    assert_eq!(parse_capacity_report("1|2|"), Err(DiskError::BadAvailableWithPurgeable));
}

#[test]
fn detailed_saturates_at_zero() {
    let d = detailed_from_capacities(100, 80, 60);
    assert_eq!(d.purgeable_bytes, 0);
    assert_eq!(d.used_bytes, 40);
    let d = detailed_from_capacities(100, 30, 150);
    assert_eq!(d.purgeable_bytes, 120);
    assert_eq!(d.used_bytes, 0);
}

#[test]
fn volume_selection_prefers_root() {
    let vols = vec![volume("/boot", 1, 1), volume("C:\\", 2, 2), volume("/", 3, 3)];
    assert_eq!(select_volume(&vols), Some(1));
    let vols = vec![volume("/boot", 1, 1), volume("/home", 2, 2)];
    assert_eq!(select_volume(&vols), Some(0));
    assert_eq!(select_volume(&Vec::new()), None);
}

#[test]
fn disk_space_of_system_volume() {
    let vols = vec![volume("/boot", 1, 1), volume("/", 1000, 250)];
    let d = disk_space_from_volumes(&vols).unwrap();
    assert_eq!(d.total_bytes, 1000);
    assert_eq!(d.free_bytes, 250);
    assert_eq!(disk_space_from_volumes(&Vec::new()), Err(DiskError::NoDisk));
}

#[test]
fn detailed_without_purgeable_space() {
    let vols = vec![volume("/", 1000, 250)];
    let d = detailed_from_volumes(&vols).unwrap();
    assert_eq!(d.available_bytes, 250);
    assert_eq!(d.available_with_purgeable_bytes, 250);
    assert_eq!(d.purgeable_bytes, 0);
    assert_eq!(d.used_bytes, 750);
    assert_eq!(detailed_from_volumes(&Vec::new()), Err(DiskError::NoDisk));
}

#[test]
fn df_report_with_crlf_and_tabs() {
    let d = parse_df_report("Filesystem 1K-blocks Used Available\r\n/dev/sda1\t100\t40\t60\t40%\t/\r\n").unwrap();
    assert_eq!(d.total_bytes, 102_400);
    assert_eq!(d.free_bytes, 61_440);
}

#[test]
fn capacity_report_largest_values() {
    let d = parse_capacity_report(" 18446744073709551615|0|18446744073709551615 ").unwrap();
    assert_eq!(d.total_bytes, u64::MAX);
    assert_eq!(d.purgeable_bytes, u64::MAX);
    assert_eq!(d.used_bytes, 0);
    assert_eq!(parse_capacity_report("18446744073709551616|0|0"), Err(DiskError::BadTotal));
}
