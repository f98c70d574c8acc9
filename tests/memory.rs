use organizer::memory::{
    memory_fallback, memory_from_vm_counters, memory_generic, physical_memory_bytes,
    LibraryMemory, VmCounters,
};
use organizer::units::{split_units, BYTES_PER_GIB, BYTES_PER_KIB, BYTES_PER_MIB};

fn counters() -> VmCounters {
    VmCounters {
        free_count: 1000,
        active_count: 5000,
        inactive_count: 3000,
        wire_count: 2000,
        purgeable_count: 100,
        speculative_count: 200,
        compressor_page_count: 400,
        external_page_count: 700,
        internal_page_count: 6000,
    }
}

fn gib(bytes: u128) -> f64 {
    let (whole, rest) = split_units(bytes, BYTES_PER_GIB as u128);
    whole as f64 + rest as f64 / BYTES_PER_GIB as f64
}

#[test]
fn native_categories() {
    let m = memory_from_vm_counters(counters(), 16384, 17_179_869_184, 1024, 512);
    assert_eq!(m.total_bytes, 17_179_869_184);
    assert_eq!(m.free_bytes, 800 * 16384);
    assert_eq!(m.app_bytes, 5900 * 16384);
    assert_eq!(m.wired_bytes, 2000 * 16384);
    assert_eq!(m.compressed_bytes, 400 * 16384);
    assert_eq!(m.cached_bytes, 800 * 16384);
    assert_eq!(m.used_bytes, (5900 + 2000 + 400) * 16384);
    assert_eq!(m.available_bytes, 3800 * 16384);
    assert_eq!(m.swap_total_bytes, 1024);
    assert_eq!(m.swap_used_bytes, 512);
}

#[test]
fn native_partition_holds() {
    let mut vm = counters();
    vm.speculative_count = 5000;
    vm.purgeable_count = 9000;
    let m = memory_from_vm_counters(vm, 4096, 0, 0, 0);
    assert_eq!(m.free_bytes, 0);
    assert_eq!(m.app_bytes, 0);
    assert_eq!(m.used_bytes, m.app_bytes + m.wired_bytes + m.compressed_bytes);
    assert!(m.available_bytes >= m.free_bytes);
    let used = gib(m.used_bytes);
    let parts = gib(m.app_bytes) + gib(m.wired_bytes) + gib(m.compressed_bytes);
    assert!((used - parts).abs() < 1e-9);
}

#[test]
fn native_largest_counters_do_not_overflow() {
    let vm = VmCounters {
        free_count: u32::MAX,
        active_count: u32::MAX,
        inactive_count: u32::MAX,
        wire_count: u32::MAX,
        purgeable_count: 0,
        speculative_count: 0,
        compressor_page_count: u32::MAX,
        external_page_count: u32::MAX,
        internal_page_count: u32::MAX,
    };
    let m = memory_from_vm_counters(vm, u32::MAX, u64::MAX, u64::MAX, u64::MAX);
    let page = u32::MAX as u128;
    assert_eq!(m.available_bytes, 2 * page * page);
    assert_eq!(m.used_bytes, 3 * page * page);
}

fn library(total: u64, used: u64, available: u64) -> LibraryMemory {
    LibraryMemory {
        total_bytes: total,
        used_bytes: used,
        available_bytes: available,
        free_bytes: 7,
        swap_total_bytes: 100,
        swap_used_bytes: 40,
    }
}

#[test]
fn fallback_derives_available() {
    let m = memory_fallback(library(1000, 600, 999));
    assert_eq!(m.available_bytes, 400);
    assert_eq!(m.used_bytes, 600);
    assert_eq!(m.free_bytes, 7);
    assert_eq!(m.app_bytes + m.wired_bytes + m.compressed_bytes + m.cached_bytes, 0);
    assert_eq!(memory_fallback(library(10, 20, 0)).available_bytes, 0);
}

#[test]
fn generic_prefers_reported_available() {
    assert_eq!(memory_generic(library(1000, 600, 550)).available_bytes, 550);
    assert_eq!(memory_generic(library(1000, 600, 0)).available_bytes, 400);
    assert_eq!(memory_generic(library(1000, 600, 0)).swap_used_bytes, 40);
}

#[test]
fn physical_memory_from_tool_output() {
    assert_eq!(physical_memory_bytes("17179869184\n"), 17_179_869_184);
    assert_eq!(physical_memory_bytes("  8589934592  "), 8_589_934_592);
    assert_eq!(physical_memory_bytes("unknown oid"), 0);
    assert_eq!(physical_memory_bytes(""), 0);
    assert_eq!(physical_memory_bytes("99999999999999999999"), 0);
}

#[test]
fn one_gib_converts_to_one() {
    assert_eq!(split_units(1_073_741_824, BYTES_PER_GIB as u128), (1, 0));
    assert!((gib(1_073_741_824) - 1.0).abs() < 1e-9);
    assert!((gib(1_610_612_736) - 1.5).abs() < 1e-9);
}

#[test]
fn split_units_round_trip() {
    let (whole, rest) = split_units(5_000_000, BYTES_PER_MIB as u128);
    assert_eq!((whole, rest), (4, 805_696));
    assert_eq!(whole * BYTES_PER_MIB as u128 + rest, 5_000_000);
    assert_eq!(split_units(3 * BYTES_PER_KIB as u128, BYTES_PER_KIB as u128), (3, 0));
}
