use sys_info::collect::{collect_disks, collect_snapshot, respond, CollectorError, PartitionSample, UsageBytes};
use sys_info::system_info::{bytes_to_kibibytes, bytes_to_megabytes, Cpu, Disk, Memory, Platform};

fn err(msg: &str) -> CollectorError {
    CollectorError { message: msg.to_string() }
}

#[test]
fn cpu_usage_is_delta_of_measurements() {
    // 30% then 45%, in hundredths of a percent: the reported usage is 15%.
    let cpu = Cpu::from_measurements(8, 3000, 4500);
    assert_eq!(cpu.count, 8);
    assert_eq!(cpu.usage, 1500);
}

#[test]
fn cpu_usage_delta_may_be_negative_or_large() {
    assert_eq!(Cpu::from_measurements(1, 4500, 3000).usage, -1500);
    // Multi-core conventions may exceed 100%.
    assert_eq!(Cpu::from_measurements(16, 0, 32000).usage, 32000);
}

#[test]
fn megabyte_conversion_truncates() {
    assert_eq!(bytes_to_megabytes(999_999), 0);
    assert_eq!(bytes_to_megabytes(1_000_000), 1);
    assert_eq!(bytes_to_megabytes(1_999_999), 1);
}

#[test]
fn kibibyte_conversion_truncates() {
    assert_eq!(bytes_to_kibibytes(1023), 0);
    assert_eq!(bytes_to_kibibytes(1024), 1);
    assert_eq!(bytes_to_kibibytes(1_048_575), 1023);
}

#[test]
fn memory_from_bytes_truncates_each_field() {
    let m = Memory::from_bytes(16_777_215_999, 8_999_999, 1_000_001);
    assert_eq!(m.total, 16_777);
    assert_eq!(m.available, 8);
    assert_eq!(m.free, 1);
}

#[test]
fn disk_from_bytes_truncates_and_keeps_names() {
    let d = Disk::from_bytes(1_048_575, 2048, 1025, "ext4".to_string(), "/".to_string());
    assert_eq!(d.total, 1023);
    assert_eq!(d.used, 2);
    assert_eq!(d.free, 1);
    assert_eq!(d.file_system, "ext4");
    assert_eq!(d.mount_point, "/");
}

fn part_ok(fs: &str, mp: &str, total: u64, used: u64, free: u64) -> PartitionSample {
    PartitionSample {
        file_system: fs.to_string(),
        mount_point: mp.to_string(),
        usage: Ok(UsageBytes { total, used, free }),
    }
}

#[test]
fn collect_disks_converts_all_partitions_in_order() {
    let parts = vec![
        part_ok("ext4", "/", 10240, 4096, 6144),
        part_ok("vfat", "/boot", 2048, 1024, 1024),
    ];
    let disks = collect_disks(parts).unwrap();
    assert_eq!(disks.len(), 2);
    assert_eq!(disks[0].mount_point, "/");
    assert_eq!(disks[0].total, 10);
    assert_eq!(disks[0].used, 4);
    assert_eq!(disks[0].free, 6);
    assert_eq!(disks[1].file_system, "vfat");
    assert_eq!(disks[1].total, 2);
}

#[test]
fn one_failed_usage_query_fails_collect_disks_entirely() {
    let parts = vec![
        part_ok("ext4", "/", 10240, 4096, 6144),
        PartitionSample {
            file_system: "ext4".to_string(),
            mount_point: "/data".to_string(),
            usage: Err(err("usage query failed")),
        },
        part_ok("vfat", "/boot", 2048, 1024, 1024),
    ];
    let r = collect_disks(parts);
    match r {
        Ok(_) => panic!("a failed partition must fail the whole call"),
        Err(e) => assert_eq!(e.message, "usage query failed"),
    }
}

#[test]
fn collect_disks_of_no_partitions_is_empty() {
    let disks = collect_disks(Vec::new()).unwrap();
    assert_eq!(disks.len(), 0);
}

fn sample_platform() -> Platform {
    Platform::new(
        "Linux".to_string(),
        "6.1.0".to_string(),
        "host".to_string(),
        "#1 SMP".to_string(),
        "x86_64".to_string(),
    )
}

#[test]
fn platform_new_keeps_fields() {
    let p = sample_platform();
    assert_eq!(p.system, "Linux");
    assert_eq!(p.release, "6.1.0");
    assert_eq!(p.hostname, "host");
    assert_eq!(p.version, "#1 SMP");
    assert_eq!(p.arch, "x86_64");
}

#[test]
fn snapshot_of_five_successes_holds_all_fields() {
    let si = collect_snapshot(
        Ok(sample_platform()),
        Ok(Vec::new()),
        Ok(Memory::from_bytes(2_000_000, 1_000_000, 500_000)),
        Ok(vec![Disk::from_bytes(2048, 1024, 1024, "ext4".to_string(), "/".to_string())]),
        Ok(Cpu::from_measurements(4, 100, 200)),
    )
    .unwrap();
    assert_eq!(si.platform.system, "Linux");
    assert_eq!(si.net.len(), 0);
    assert_eq!(si.memory.total, 2);
    assert_eq!(si.disk.len(), 1);
    assert_eq!(si.cpu.usage, 100);
}

#[test]
fn snapshot_fails_with_first_collector_error() {
    let r = collect_snapshot(
        Ok(sample_platform()),
        Err(err("net down")),
        Err(err("memory unavailable")),
        Ok(Vec::new()),
        Err(err("cpu sample failed")),
    );
    match r {
        Ok(_) => panic!("a failed collector must fail the snapshot"),
        Err(e) => assert_eq!(e.message, "net down"),
    }
}

#[test]
fn disk_failure_surfaces_as_error_envelope() {
    // A throwing disk subsystem ends in the error envelope: code 10001, a
    // message starting with "Error", and no data.
    let outcome: Result<Vec<Disk>, CollectorError> =
        collect_disks(vec![PartitionSample {
            file_system: "ext4".to_string(),
            mount_point: "/".to_string(),
            usage: Err(err("disk subsystem unavailable")),
        }]);
    let envelope = respond(outcome);
    assert_eq!(envelope.code, 10001);
    assert!(envelope.msg.starts_with("Error"));
    assert_eq!(envelope.msg, "Error disk subsystem unavailable");
    assert!(envelope.data.is_none());
}

#[test]
fn success_surfaces_as_data_envelope() {
    let envelope = respond::<u64>(Ok(42));
    assert_eq!(envelope.code, 0);
    assert_eq!(envelope.msg, "Success");
    assert_eq!(envelope.data, Some(42));
}
