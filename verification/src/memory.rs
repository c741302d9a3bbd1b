//! RAM and swap, from `sysinfo`.
use vstd::prelude::*;

verus! {

#[derive(Debug, Clone, Copy, PartialEq, Eq, Structural)]
pub struct MemoryStats {
    pub total_mb: u64,
    pub used_mb: u64,
    pub available_mb: u64,
    pub cached_mb: u64,
    pub swap_total_mb: u64,
    pub swap_used_mb: u64,
}

/// `System::total_memory`: the RAM size in bytes, as last refreshed.
pub assume_specification[ sysinfo::System::total_memory ](sys: &sysinfo::System) -> u64;

/// `System::used_memory`: the RAM in use in bytes, as last refreshed.
pub assume_specification[ sysinfo::System::used_memory ](sys: &sysinfo::System) -> u64;

/// `System::available_memory`: the RAM available for new programs in bytes.
pub assume_specification[ sysinfo::System::available_memory ](sys: &sysinfo::System) -> u64;

/// `System::free_memory`: the RAM not used at all in bytes.
pub assume_specification[ sysinfo::System::free_memory ](sys: &sysinfo::System) -> u64;

/// `System::total_swap`: the swap size in bytes.
pub assume_specification[ sysinfo::System::total_swap ](sys: &sysinfo::System) -> u64;

/// `System::used_swap`: the swap in use in bytes.
pub assume_specification[ sysinfo::System::used_swap ](sys: &sysinfo::System) -> u64;

pub open spec fn mib(bytes: u64) -> u64 {
    bytes / 1_048_576u64
}

/// The figures of `r` are those of the given byte counts, in mebibytes; the
/// cache is what is available beyond the free memory.
pub open spec fn memory_from(
    r: MemoryStats,
    total: u64,
    used: u64,
    available: u64,
    free: u64,
    swap_total: u64,
    swap_used: u64,
) -> bool {
    &&& r.total_mb == mib(total)
    &&& r.used_mb == mib(used)
    &&& r.available_mb == mib(available)
    &&& r.cached_mb == (if available > free {
        mib((available - free) as u64)
    } else {
        0
    })
    &&& r.swap_total_mb == mib(swap_total)
    &&& r.swap_used_mb == mib(swap_used)
}

/// Memory figures in mebibytes, from byte counts. The cache is what is
/// available beyond the memory left completely free (reclaimable pages).
pub fn memory_stats(
    total: u64,
    used: u64,
    available: u64,
    free: u64,
    swap_total: u64,
    swap_used: u64,
) -> (r: MemoryStats)
    ensures
        memory_from(r, total, used, available, free, swap_total, swap_used),
{
    let mb: u64 = 1024 * 1024;
    MemoryStats {
        total_mb: total / mb,
        used_mb: used / mb,
        available_mb: available / mb,
        cached_mb: if available > free {
            (available - free) / mb
        } else {
            0
        },
        swap_total_mb: swap_total / mb,
        swap_used_mb: swap_used / mb,
    }
}

/// The memory figures of the last refresh of `sys`.
pub fn get_memory_stats(sys: &sysinfo::System) -> (r: MemoryStats)
    ensures
        exists|total: u64, used: u64, available: u64, free: u64, swap_total: u64, swap_used: u64|
            #[trigger] memory_from(r, total, used, available, free, swap_total, swap_used),
{
    memory_stats(
        sys.total_memory(),
        sys.used_memory(),
        sys.available_memory(),
        sys.free_memory(),
        sys.total_swap(),
        sys.used_swap(),
    )
}

} // verus!
