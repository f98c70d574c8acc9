//! Memory snapshots.
//!
//! The native path reads the kernel's page counters and sorts memory into
//! the categories of a resource monitor; the generic path takes the
//! portable library's totals and leaves the categories at zero.
use vstd::prelude::*;
use crate::text::{chars_of, decimal_ok, decimal_value, parse_decimal, trim_of, trim_span};

verus! {

/// The kernel's virtual-memory page counters that the categories use.
#[derive(Clone, Copy, Debug, PartialEq, Eq, Structural)]
pub struct VmCounters {
    pub free_count: u32,
    pub active_count: u32,
    pub inactive_count: u32,
    pub wire_count: u32,
    pub purgeable_count: u32,
    pub speculative_count: u32,
    pub compressor_page_count: u32,
    pub external_page_count: u32,
    pub internal_page_count: u32,
}

/// Totals as the portable system-information library reports them.
#[derive(Clone, Copy, Debug, PartialEq, Eq, Structural)]
pub struct LibraryMemory {
    pub total_bytes: u64,
    pub used_bytes: u64,
    pub available_bytes: u64,
    pub free_bytes: u64,
    pub swap_total_bytes: u64,
    pub swap_used_bytes: u64,
}

/// A categorised memory breakdown, in bytes.
#[derive(Clone, Copy, Debug, PartialEq, Eq, Structural)]
pub struct MemorySnapshot {
    pub total_bytes: u128,
    pub used_bytes: u128,
    pub available_bytes: u128,
    pub free_bytes: u128,
    pub app_bytes: u128,
    pub wired_bytes: u128,
    pub compressed_bytes: u128,
    pub cached_bytes: u128,
    pub swap_total_bytes: u128,
    pub swap_used_bytes: u128,
}

pub open spec fn sat_sub(a: int, b: int) -> int {
    if a >= b {
        a - b
    } else {
        0
    }
}

/// The breakdown that the kernel counters give: free excludes speculative
/// pages, app memory excludes purgeable pages, cached is purgeable plus
/// file-backed, used is app plus wired plus compressed, and available is
/// free plus inactive.
pub open spec fn native_snapshot(
    vm: VmCounters,
    page_size: u32,
    total_bytes: u64,
    swap_total_bytes: u64,
    swap_used_bytes: u64,
) -> MemorySnapshot {
    let ps = page_size as int;
    let free_pages = sat_sub(vm.free_count as int, vm.speculative_count as int);
    let app_pages = sat_sub(vm.internal_page_count as int, vm.purgeable_count as int);
    let cached_pages = vm.purgeable_count as int + vm.external_page_count as int;
    let app = app_pages * ps;
    let wired = vm.wire_count as int * ps;
    let compressed = vm.compressor_page_count as int * ps;
    MemorySnapshot {
        total_bytes: total_bytes as u128,
        used_bytes: (app + wired + compressed) as u128,
        available_bytes: ((free_pages + vm.inactive_count as int) * ps) as u128,
        free_bytes: (free_pages * ps) as u128,
        app_bytes: app as u128,
        wired_bytes: wired as u128,
        compressed_bytes: compressed as u128,
        cached_bytes: (cached_pages * ps) as u128,
        swap_total_bytes: swap_total_bytes as u128,
        swap_used_bytes: swap_used_bytes as u128,
    }
}

/// The generic breakdown used when the kernel call fails: available is
/// what is not used, and the categories are zero.
pub open spec fn fallback_snapshot(lib: LibraryMemory) -> MemorySnapshot {
    MemorySnapshot {
        total_bytes: lib.total_bytes as u128,
        used_bytes: lib.used_bytes as u128,
        available_bytes: sat_sub(lib.total_bytes as int, lib.used_bytes as int) as u128,
        free_bytes: lib.free_bytes as u128,
        app_bytes: 0,
        wired_bytes: 0,
        compressed_bytes: 0,
        cached_bytes: 0,
        swap_total_bytes: lib.swap_total_bytes as u128,
        swap_used_bytes: lib.swap_used_bytes as u128,
    }
}

/// The breakdown on platforms without the kernel counters: the library's
/// available figure, or what is not used where the library reports none.
pub open spec fn generic_snapshot(lib: LibraryMemory) -> MemorySnapshot {
    MemorySnapshot {
        available_bytes: if lib.available_bytes > 0 {
            lib.available_bytes as u128
        } else {
            sat_sub(lib.total_bytes as int, lib.used_bytes as int) as u128
        },
        ..fallback_snapshot(lib)
    }
}

proof fn lemma_page_bytes(pages: int, ps: int)
    requires
        0 <= pages <= 0x2_0000_0000,
        0 <= ps <= 0xffff_ffff,
    ensures
        0 <= pages * ps <= 0x2_0000_0000 * 0xffff_ffff,
{
    assert(0 <= pages * ps <= 0x2_0000_0000 * 0xffff_ffff) by (nonlinear_arith)
        requires
            0 <= pages <= 0x2_0000_0000,
            0 <= ps <= 0xffff_ffff,
    ;
}

/// The memory breakdown from the kernel's page counters, the page size, the
/// physical memory size and the swap totals.
pub fn memory_from_vm_counters(
    vm: VmCounters,
    page_size: u32,
    total_bytes: u64,
    swap_total_bytes: u64,
    swap_used_bytes: u64,
) -> (r: MemorySnapshot)
    ensures
        r == native_snapshot(vm, page_size, total_bytes, swap_total_bytes, swap_used_bytes),
        r.used_bytes == r.app_bytes + r.wired_bytes + r.compressed_bytes,
        r.available_bytes >= r.free_bytes,
{
    let ps = page_size as u128;
    let free_pages: u128 = if vm.free_count >= vm.speculative_count {
        (vm.free_count - vm.speculative_count) as u128
    } else {
        0
    };
    let app_pages: u128 = if vm.internal_page_count >= vm.purgeable_count {
        (vm.internal_page_count - vm.purgeable_count) as u128
    } else {
        0
    };
    let cached_pages: u128 = vm.purgeable_count as u128 + vm.external_page_count as u128;
    let available_pages: u128 = free_pages + vm.inactive_count as u128;
    proof {
        lemma_page_bytes(free_pages as int, ps as int);
        lemma_page_bytes(app_pages as int, ps as int);
        lemma_page_bytes(cached_pages as int, ps as int);
        lemma_page_bytes(available_pages as int, ps as int);
        lemma_page_bytes(vm.wire_count as int, ps as int);
        lemma_page_bytes(vm.compressor_page_count as int, ps as int);
        assert(free_pages * ps <= available_pages * ps) by (nonlinear_arith)
            requires
                free_pages <= available_pages,
        ;
    }
    let app = app_pages * ps;
    let wired = vm.wire_count as u128 * ps;
    let compressed = vm.compressor_page_count as u128 * ps;
    MemorySnapshot {
        total_bytes: total_bytes as u128,
        used_bytes: app + wired + compressed,
        available_bytes: available_pages * ps,
        free_bytes: free_pages * ps,
        app_bytes: app,
        wired_bytes: wired,
        compressed_bytes: compressed,
        cached_bytes: cached_pages * ps,
        swap_total_bytes: swap_total_bytes as u128,
        swap_used_bytes: swap_used_bytes as u128,
    }
}

/// On the native path the three categories make up used memory, and
/// available memory is never less than free memory.
pub proof fn lemma_native_partition(
    vm: VmCounters,
    page_size: u32,
    total_bytes: u64,
    swap_total_bytes: u64,
    swap_used_bytes: u64,
)
    ensures
        ({
            let m = native_snapshot(vm, page_size, total_bytes, swap_total_bytes, swap_used_bytes);
            &&& m.used_bytes == m.app_bytes + m.wired_bytes + m.compressed_bytes
            &&& m.available_bytes >= m.free_bytes
        }),
{
    let ps = page_size as int;
    let free_pages = sat_sub(vm.free_count as int, vm.speculative_count as int);
    let app_pages = sat_sub(vm.internal_page_count as int, vm.purgeable_count as int);
    let available_pages = free_pages + vm.inactive_count as int;
    lemma_page_bytes(free_pages, ps);
    lemma_page_bytes(app_pages, ps);
    lemma_page_bytes(available_pages, ps);
    lemma_page_bytes(vm.wire_count as int, ps);
    lemma_page_bytes(vm.compressor_page_count as int, ps);
    assert(free_pages * ps <= available_pages * ps) by (nonlinear_arith)
        requires
            free_pages <= available_pages,
            ps >= 0,
    ;
}

/// The generic breakdown, used where the kernel counters could not be read.
pub fn memory_fallback(lib: LibraryMemory) -> (r: MemorySnapshot)
    ensures
        r == fallback_snapshot(lib),
{
    let available: u64 = if lib.total_bytes >= lib.used_bytes {
        lib.total_bytes - lib.used_bytes
    } else {
        0
    };
    MemorySnapshot {
        total_bytes: lib.total_bytes as u128,
        used_bytes: lib.used_bytes as u128,
        available_bytes: available as u128,
        free_bytes: lib.free_bytes as u128,
        app_bytes: 0,
        wired_bytes: 0,
        compressed_bytes: 0,
        cached_bytes: 0,
        swap_total_bytes: lib.swap_total_bytes as u128,
        swap_used_bytes: lib.swap_used_bytes as u128,
    }
}

/// The breakdown on platforms that offer only the portable library.
pub fn memory_generic(lib: LibraryMemory) -> (r: MemorySnapshot)
    ensures
        r == generic_snapshot(lib),
{
    let base = memory_fallback(lib);
    if lib.available_bytes > 0 {
        MemorySnapshot { available_bytes: lib.available_bytes as u128, ..base }
    } else {
        base
    }
}

/// The physical memory size in the system-configuration tool's output: the
/// trimmed output read as a decimal number, or zero.
pub open spec fn sysctl_total(s: Seq<char>) -> u64 {
    let t = trim_of(s, 0, s.len() as int);
    if decimal_ok(s, t.0, t.1, u64::MAX as int) {
        decimal_value(s, t.0, t.1) as u64
    } else {
        0
    }
}

/// Reads the physical memory size from the system-configuration tool's
/// output; zero where it does not read as a number.
pub fn physical_memory_bytes(report: &str) -> (r: u64)
    ensures
        r == sysctl_total(report@),
{
    let cs = chars_of(report);
    let (a, b) = trim_span(&cs, 0, cs.len());
    match parse_decimal(&cs, a, b) {
        Some(v) => v,
        None => 0,
    }
}

} // verus!
