//! The data model: one immutable snapshot per collection call, assembled from
//! the five collector outputs and discarded after serialization.

use vstd::prelude::*;

verus! {

/// One point-in-time aggregation of all collector outputs.
pub struct SystemInfo {
    pub platform: Platform,
    pub net: Vec<Net>,
    pub memory: Memory,
    pub disk: Vec<Disk>,
    pub cpu: Cpu,
}

/// Operating-system identity, as reported by the host.
pub struct Platform {
    pub system: String,
    pub release: String,
    pub hostname: String,
    pub version: String,
    pub arch: String,
}

/// One network interface: address information merged with I/O counters,
/// keyed by the interface `name`.
pub struct Net {
    pub ip: String,
    pub name: String,
    pub ip_v6: String,
    pub mac: String,
    pub bytes_sent: u64,
    pub bytes_recv: u64,
    pub packets_sent: u64,
    pub packets_recv: u64,
}

/// Memory amounts in whole megabytes, truncated from the byte counts the
/// host reports.
pub struct Memory {
    pub total: u64,
    pub available: u64,
    pub free: u64,
}

/// One mounted physical partition, with usage in whole kibibytes.
pub struct Disk {
    pub total: u64,
    pub used: u64,
    pub free: u64,
    pub file_system: String,
    pub mount_point: String,
}

/// Logical core count and a usage percentage measured as a delta over a
/// sample interval. `usage` is held in hundredths of a percent, so a value
/// of 1500 stands for 15%; it may exceed 10000 on multi-core hosts and may
/// be negative when the second sample reads below the first.
pub struct Cpu {
    pub count: u64,
    pub usage: i64,
}

/// A stable machine identifier: a fixed-length hex digest.
pub struct MachineId {
    pub id: String,
}

/// Bytes in one megabyte (SI), the unit of `Memory` fields.
pub const BYTES_PER_MEGABYTE: u64 = 1_000_000;

/// Bytes in one kibibyte, the unit of `Disk` fields.
pub const BYTES_PER_KIBIBYTE: u64 = 1024;

/// Converts a byte count to whole megabytes, truncating toward zero.
pub fn bytes_to_megabytes(bytes: u64) -> (r: u64)
    ensures
        r == bytes / BYTES_PER_MEGABYTE,
{
    bytes / BYTES_PER_MEGABYTE
}

/// Converts a byte count to whole kibibytes, truncating toward zero.
pub fn bytes_to_kibibytes(bytes: u64) -> (r: u64)
    ensures
        r == bytes / BYTES_PER_KIBIBYTE,
{
    bytes / BYTES_PER_KIBIBYTE
}

impl Platform {
    /// Builds the platform record from the strings the host query returned.
    pub fn new(system: String, release: String, hostname: String, version: String, arch: String)
        -> (r: Platform)
        ensures
            r.system == system,
            r.release == release,
            r.hostname == hostname,
            r.version == version,
            r.arch == arch,
    {
        Platform { system, release, hostname, version, arch }
    }
}

impl Memory {
    /// Builds the memory record from raw byte counts, truncating each to
    /// whole megabytes.
    pub fn from_bytes(total: u64, available: u64, free: u64) -> (r: Memory)
        ensures
            r.total == total / BYTES_PER_MEGABYTE,
            r.available == available / BYTES_PER_MEGABYTE,
            r.free == free / BYTES_PER_MEGABYTE,
    {
        Memory {
            total: bytes_to_megabytes(total),
            available: bytes_to_megabytes(available),
            free: bytes_to_megabytes(free),
        }
    }
}

impl Disk {
    /// Builds one partition record from raw usage byte counts, truncating
    /// each to whole kibibytes.
    pub fn from_bytes(total: u64, used: u64, free: u64, file_system: String, mount_point: String)
        -> (r: Disk)
        ensures
            r.total == total / BYTES_PER_KIBIBYTE,
            r.used == used / BYTES_PER_KIBIBYTE,
            r.free == free / BYTES_PER_KIBIBYTE,
            r.file_system == file_system,
            r.mount_point == mount_point,
    {
        Disk {
            total: bytes_to_kibibytes(total),
            used: bytes_to_kibibytes(used),
            free: bytes_to_kibibytes(free),
            file_system,
            mount_point,
        }
    }
}

impl Cpu {
    /// Derives the usage delta from two utilization measurements taken a
    /// sample interval apart, both in hundredths of a percent: the reported
    /// usage is exactly the second measurement minus the first.
    pub fn from_measurements(count: u64, before: i64, after: i64) -> (r: Cpu)
        requires
            i64::MIN <= after - before <= i64::MAX,
        ensures
            r.count == count,
            r.usage == after - before,
    {
        Cpu { count, usage: after - before }
    }
}

} // verus!
