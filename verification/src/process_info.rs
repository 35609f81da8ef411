//! Process and system facts: version information, and system memory as the
//! `sysinfo` crate reports it.

use vstd::prelude::*;
use crate::config::VERSION;
use crate::text::owned;

verus! {

/// Memory use of the process, in bytes.
#[derive(Debug)]
pub struct ProcessMemoryInfo {
    pub private_bytes: u64,
    pub shared_bytes: u64,
    pub working_set_size: u64,
    pub peak_working_set_size: u64,
    pub pagefile_usage: u64,
    pub peak_pagefile_usage: u64,
}

/// System memory, in bytes.
#[derive(Debug)]
pub struct SystemMemoryInfo {
    /// Total physical memory.
    pub total: u64,
    /// Available physical memory.
    pub free: u64,
    /// Physical memory in use.
    pub used: u64,
    /// Total swap.
    pub swap_total: u64,
    /// Free swap.
    pub swap_free: u64,
}

/// Read and write counts of the process.
#[derive(Debug)]
pub struct IOCounters {
    pub read_count: u64,
    pub write_count: u64,
    pub read_bytes: u64,
    pub write_bytes: u64,
}

/// Versions reported to pages.
#[derive(Debug)]
pub struct ProcessVersions {
    pub app_version: String,
    pub nefu_version: String,
    pub electron_version: String,
    pub chrome_version: String,
    pub node_version: String,
    pub v8_version: String,
}

/// The versions: this tool's version for the application and for Nefu,
/// and fixed texts for the compatibility fields.
pub fn get_versions() -> (r: ProcessVersions)
    ensures
        r.app_version@ == VERSION@,
        r.nefu_version@ == VERSION@,
        r.electron_version@ == "0.0.0 (Nefu Compatible)"@,
        r.chrome_version@ == "WebView2 (Chromium-based)"@,
        r.node_version@ == "N/A (Rust Runtime)"@,
        r.v8_version@ == "WebView2 Built-in"@,
{
    ProcessVersions {
        app_version: owned(VERSION),
        nefu_version: owned(VERSION),
        electron_version: owned("0.0.0 (Nefu Compatible)"),
        chrome_version: owned("WebView2 (Chromium-based)"),
        node_version: owned("N/A (Rust Runtime)"),
        v8_version: owned("WebView2 Built-in"),
    }
}

/// System memory from the total, available, total swap and available swap:
/// what is in use is the total less the available.
pub fn system_memory_info(total: u64, available: u64, swap_total: u64, swap_available: u64) -> (r: SystemMemoryInfo)
    requires
        available <= total,
    ensures
        r.total == total,
        r.free == available,
        r.used == total - available,
        r.swap_total == swap_total,
        r.swap_free == swap_available,
{
    SystemMemoryInfo { total, free: available, used: total - available, swap_total, swap_free: swap_available }
}

/// `sysinfo::System` memory figures after `refresh_memory`: total and
/// available memory, total and free swap. They depend on the machine and
/// the moment; nothing is stated of them.
#[verifier::external_body]
fn memory_snapshot() -> (r: (u64, u64, u64, u64)) {
    let mut sys = sysinfo::System::new();
    sys.refresh_memory();
    (sys.total_memory(), sys.available_memory(), sys.total_swap(), sys.free_swap())
}

/// The system's memory now. Where the system reports more available than
/// total memory, nothing is counted as in use.
pub fn get_system_memory_info() -> (r: SystemMemoryInfo)
    ensures
        r.free <= r.total ==> r.used == r.total - r.free,
        r.free > r.total ==> r.used == 0,
{
    let (total, available, swap_total, swap_available) = memory_snapshot();
    if available <= total {
        system_memory_info(total, available, swap_total, swap_available)
    } else {
        SystemMemoryInfo { total, free: available, used: 0, swap_total, swap_free: swap_available }
    }
}

} // verus!
