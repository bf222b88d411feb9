//! Collector errors, the disk collector's fold, the snapshot aggregation and
//! the response envelope around a collector outcome.

use vstd::prelude::*;
use crate::system_info::{Cpu, Disk, Memory, Platform, SystemInfo, BYTES_PER_KIBIBYTE};
use crate::system_info::Net;
use crate::result::{SUCCESS_CODE, SYS_ERROR_CODE};

verus! {

/// An OS or library query failed; the message describes the failure.
#[derive(Debug)]
pub struct CollectorError {
    pub message: String,
}

/// Raw usage byte counts of one partition.
pub struct UsageBytes {
    pub total: u64,
    pub used: u64,
    pub free: u64,
}

/// One enumerated physical partition together with the outcome of the usage
/// query against its mount point.
pub struct PartitionSample {
    pub file_system: String,
    pub mount_point: String,
    pub usage: Result<UsageBytes, CollectorError>,
}

/// The disk record owed to one partition sample: its usage bytes truncated
/// to whole kibibytes, and its names carried over.
pub open spec fn disk_ok(p: PartitionSample, d: Disk) -> bool {
    &&& p.usage is Ok
    &&& d.total == p.usage->Ok_0.total / BYTES_PER_KIBIBYTE
    &&& d.used == p.usage->Ok_0.used / BYTES_PER_KIBIBYTE
    &&& d.free == p.usage->Ok_0.free / BYTES_PER_KIBIBYTE
    &&& d.file_system@ == p.file_system@
    &&& d.mount_point@ == p.mount_point@
}

/// Folds the enumerated partitions into the disk list. A single failed
/// usage query fails the whole call with the first such error — no partial
/// list is returned; otherwise every partition is converted, in enumeration
/// order.
pub fn collect_disks(parts: Vec<PartitionSample>) -> (r: Result<Vec<Disk>, CollectorError>)
    ensures
        match r {
            Ok(list) => list@.len() == parts@.len() && forall|i: int|
                0 <= i < parts@.len() ==> disk_ok(parts@[i], #[trigger] list@[i]),
            Err(e) => exists|i: int|
                0 <= i < parts@.len() && (#[trigger] parts@[i]).usage is Err
                    && e.message@ == parts@[i].usage->Err_0.message@
                    && (forall|k: int| 0 <= k < i ==> (#[trigger] parts@[k]).usage is Ok),
        },
{
    let mut list: Vec<Disk> = Vec::new();
    let mut idx: usize = 0;
    while idx < parts.len()
        invariant
            idx <= parts@.len(),
            list@.len() == idx,
            forall|k: int| 0 <= k < idx ==> (#[trigger] parts@[k]).usage is Ok,
            forall|k: int| 0 <= k < idx ==> disk_ok(parts@[k], #[trigger] list@[k]),
        decreases parts@.len() - idx,
    {
        match &parts[idx].usage {
            Err(e) => {
                return Err(CollectorError { message: e.message.clone() });
            }
            Ok(u) => {
                list.push(
                    Disk::from_bytes(
                        u.total,
                        u.used,
                        u.free,
                        parts[idx].file_system.clone(),
                        parts[idx].mount_point.clone(),
                    ),
                );
            }
        }
        idx = idx + 1;
    }
    Ok(list)
}

/// Assembles one snapshot from the five collector outcomes. The snapshot is
/// built exactly when every collector succeeded; otherwise the first failure
/// — in the order platform, net, memory, disk, cpu — is returned whole.
pub fn collect_snapshot(
    platform: Result<Platform, CollectorError>,
    net: Result<Vec<Net>, CollectorError>,
    memory: Result<Memory, CollectorError>,
    disk: Result<Vec<Disk>, CollectorError>,
    cpu: Result<Cpu, CollectorError>,
) -> (r: Result<SystemInfo, CollectorError>)
    ensures
        match r {
            Ok(si) => {
                &&& platform is Ok && net is Ok && memory is Ok && disk is Ok && cpu is Ok
                &&& si.platform == platform->Ok_0
                &&& si.net == net->Ok_0
                &&& si.memory == memory->Ok_0
                &&& si.disk == disk->Ok_0
                &&& si.cpu == cpu->Ok_0
            },
            Err(e) => {
                ||| (platform is Err && e == platform->Err_0)
                ||| (platform is Ok && net is Err && e == net->Err_0)
                ||| (platform is Ok && net is Ok && memory is Err && e == memory->Err_0)
                ||| (platform is Ok && net is Ok && memory is Ok && disk is Err && e
                    == disk->Err_0)
                ||| (platform is Ok && net is Ok && memory is Ok && disk is Ok && cpu is Err && e
                    == cpu->Err_0)
            },
        },
{
    let platform = match platform {
        Ok(p) => p,
        Err(e) => {
            return Err(e);
        }
    };
    let net = match net {
        Ok(n) => n,
        Err(e) => {
            return Err(e);
        }
    };
    let memory = match memory {
        Ok(m) => m,
        Err(e) => {
            return Err(e);
        }
    };
    let disk = match disk {
        Ok(d) => d,
        Err(e) => {
            return Err(e);
        }
    };
    let cpu = match cpu {
        Ok(c) => c,
        Err(e) => {
            return Err(e);
        }
    };
    Ok(SystemInfo { platform, net, memory, disk, cpu })
}

/// Wraps a collector outcome in the response envelope: success carries the
/// data under code 0; a failure carries no data under code 10001 with the
/// message "Error " followed by the failure's description.
pub fn respond<T>(outcome: Result<T, CollectorError>) -> (r: crate::result::Result<T>)
    ensures
        match outcome {
            Ok(data) => r.code == SUCCESS_CODE && r.msg@ == "Success"@ && r.data == Some(data),
            Err(e) => r.code == SYS_ERROR_CODE && r.msg@ == "Error"@ + " "@ + e.message@
                && r.data is None,
        },
{
    match outcome {
        Ok(data) => crate::result::Result::success_return_data(data),
        Err(e) => {
            let wrapped = crate::result::Result::error_description(
                crate::result::Error::sys_error(),
                e.message.as_str(),
            );
            crate::result::Result { code: wrapped.code, msg: wrapped.msg, data: None }
        }
    }
}

} // verus!
