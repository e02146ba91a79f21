use fairshare::mounts::{
    family_of_fs_type, has_mount_option, quota_enabled, resolve_mount, FsFamily, MountEntry,
};
use fairshare::quota::{
    build_basic_limit_record, build_kib_limit_record, bytes_to_basic_blocks, bytes_to_kib_blocks,
    classify_set_errno, enum_start, enum_step, enumerate_users_with_usage, gigabytes_to_bytes,
    plan_get_user_disk_quota, plan_set_user_disk_limit, qcmd, quota_bytes_from_outcome,
    quota_lifecycle_step, BasicQuotaRecord, KibQuotaRecord, NextQuotaEvent, QuotaError,
    QuotaGetOutcome, QuotaLifecycle, QuotaLifecycleEvent, QuotaSetRecord,
};

fn entry(device: &str, mount_point: &str, fs_type: &str, options: &str) -> MountEntry {
    MountEntry {
        device: device.to_string(),
        mount_point: mount_point.to_string(),
        fs_type: fs_type.to_string(),
        options: options.to_string(),
    }
}

fn sample_table() -> Vec<MountEntry> {
    vec![
        entry("/dev/sda1", "/", "ext4", "rw,relatime"),
        entry("/dev/sda2", "/home", "xfs", "rw,relatime"),
        entry("/dev/sda3", "/home/user", "ext4", "rw,relatime"),
    ]
}

#[test]
fn test_unit_round_trip_documented_constants() {
    for g in [1u64, 2, 10, 100, 1000] {
        let bytes = gigabytes_to_bytes(g).unwrap();
        assert_eq!(bytes, g * 1024 * 1024 * 1024);
        assert_eq!(bytes_to_basic_blocks(bytes), g * 2_097_152);
        assert_eq!(bytes_to_kib_blocks(bytes), g * 1_048_576);
    }
}

#[test]
fn test_gigabytes_to_bytes_overflow() {
    // The largest gigabyte count whose byte value fits in 64 bits.
    assert!(gigabytes_to_bytes(17_179_869_183).is_some());
    assert!(gigabytes_to_bytes(17_179_869_184).is_none());
}

#[test]
fn test_mount_resolution_longest_prefix() {
    let table = sample_table();

    // /home/user/data is covered by /, /home and /home/user; the longest wins.
    let m = resolve_mount(&table, "/home/user/data").unwrap();
    assert_eq!(m.index, 2);
    assert_eq!(m.device, "/dev/sda3");
    assert_eq!(m.family, FsFamily::KilobyteBlock);

    // /var is only covered by the root mount.
    let m = resolve_mount(&table, "/var").unwrap();
    assert_eq!(m.index, 0);
    assert_eq!(m.device, "/dev/sda1");
}

#[test]
fn test_mount_resolution_separator_boundary() {
    let table = sample_table();
    // /home/username is not under /home/user: the prefix must end at a
    // path separator.
    let m = resolve_mount(&table, "/home/username").unwrap();
    assert_eq!(m.index, 1);
    assert_eq!(m.device, "/dev/sda2");
    assert_eq!(m.family, FsFamily::BasicBlock);

    // An exact match works without a trailing separator.
    let m = resolve_mount(&table, "/home/user").unwrap();
    assert_eq!(m.index, 2);
}

#[test]
fn test_mount_resolution_not_found() {
    let table = vec![entry("/dev/sdb1", "/data", "ext4", "rw")];
    assert!(resolve_mount(&table, "/var/log").is_none());
}

#[test]
fn test_family_classification() {
    assert_eq!(family_of_fs_type("xfs"), FsFamily::BasicBlock);
    assert_eq!(family_of_fs_type("ext4"), FsFamily::KilobyteBlock);
    assert_eq!(family_of_fs_type("ext2"), FsFamily::KilobyteBlock);
    assert_eq!(family_of_fs_type("btrfs"), FsFamily::KilobyteBlock);
    assert_eq!(family_of_fs_type("tmpfs"), FsFamily::Unsupported);
    assert_eq!(family_of_fs_type("vfat"), FsFamily::Unsupported);
}

#[test]
fn test_quota_enabled_fails_closed_only_on_noquota() {
    let mut table = sample_table();
    assert!(quota_enabled(&table, "/home/user/data"));
    // Unresolved paths defer to the kernel: enabled.
    assert!(quota_enabled(&Vec::new(), "/anything"));

    table[2].options = "rw,noquota".to_string();
    assert!(!quota_enabled(&table, "/home/user/data"));
    // Other mounts are unaffected.
    assert!(quota_enabled(&table, "/home/other"));
}

#[test]
fn test_mount_option_token_matching() {
    assert!(has_mount_option("rw,noquota,relatime", "noquota"));
    assert!(has_mount_option("noquota", "noquota"));
    // Substrings of longer tokens do not count.
    assert!(!has_mount_option("rw,usrnoquota", "noquota"));
    assert!(!has_mount_option("rw,noquotax", "noquota"));
    assert!(!has_mount_option("", "noquota"));
}

#[test]
fn test_plan_set_basic_block_family() {
    let table = sample_table();
    let plan = plan_set_user_disk_limit(&table, 1000, 10, "/home/alice").unwrap();
    assert_eq!(plan.device, "/dev/sda2");
    // Q_XSETQLIM shifted over the user quota type.
    assert_eq!(plan.command, 0x5804 * 256);
    match plan.record {
        QuotaSetRecord::Basic(rec) => {
            assert_eq!(rec.id, 1000);
            assert_eq!(rec.blk_hardlimit, 10 * 2_097_152);
            assert_eq!(rec.blk_softlimit, 10 * 2_097_152);
            assert_eq!(rec.version, 1);
            assert_eq!(rec.flags, 1);
            assert_eq!(rec.fieldmask, 12);
        }
        QuotaSetRecord::Kib(_) => panic!("wrong record family"),
    }
}

#[test]
fn test_plan_set_kilobyte_block_family() {
    let table = sample_table();
    let plan = plan_set_user_disk_limit(&table, 1000, 10, "/home/user/data").unwrap();
    assert_eq!(plan.device, "/dev/sda3");
    assert_eq!(plan.command, 0x800008u32 * 256);
    match plan.record {
        QuotaSetRecord::Kib(rec) => {
            assert_eq!(rec.bhardlimit, 10 * 1_048_576);
            assert_eq!(rec.bsoftlimit, 10 * 1_048_576);
            assert_eq!(rec.valid, 1);
        }
        QuotaSetRecord::Basic(_) => panic!("wrong record family"),
    }
}

#[test]
fn test_plan_set_error_cases() {
    let table = vec![entry("/dev/sdc1", "/media", "vfat", "rw")];
    assert_eq!(
        plan_set_user_disk_limit(&table, 1000, 1, "/media/stick").unwrap_err(),
        QuotaError::Unsupported
    );
    assert_eq!(
        plan_set_user_disk_limit(&table, 1000, 1, "/elsewhere").unwrap_err(),
        QuotaError::NotFound
    );

    let noq = vec![entry("/dev/sdd1", "/srv", "ext4", "rw,noquota")];
    assert_eq!(
        plan_set_user_disk_limit(&noq, 1000, 1, "/srv/files").unwrap_err(),
        QuotaError::Unsupported
    );

    let ok = vec![entry("/dev/sde1", "/big", "ext4", "rw")];
    assert_eq!(
        plan_set_user_disk_limit(&ok, 1000, u64::MAX, "/big/file").unwrap_err(),
        QuotaError::InvalidInput
    );
}

#[test]
fn test_plan_get() {
    let table = sample_table();
    let plan = plan_get_user_disk_quota(&table, "/home/alice").unwrap();
    assert_eq!(plan.device, "/dev/sda2");
    assert_eq!(plan.family, FsFamily::BasicBlock);
    assert_eq!(plan.command, 0x5803 * 256);

    let plan = plan_get_user_disk_quota(&table, "/var").unwrap();
    assert_eq!(plan.device, "/dev/sda1");
    assert_eq!(plan.family, FsFamily::KilobyteBlock);
    assert_eq!(plan.command, 0x800007u32 * 256);

    assert_eq!(
        plan_get_user_disk_quota(&Vec::new(), "/x").unwrap_err(),
        QuotaError::NotFound
    );
}

#[test]
fn test_qcmd_packing() {
    assert_eq!(qcmd(0x800007, 0), 0x80000700);
    assert_eq!(qcmd(0x5804, 0), 0x580400);
    assert_eq!(qcmd(0x5803, 1), 0x580301);
}

#[test]
fn test_classify_set_errno() {
    assert_eq!(classify_set_errno(2), QuotaError::Unsupported);
    assert_eq!(classify_set_errno(3), QuotaError::Unsupported);
    assert_eq!(classify_set_errno(22), QuotaError::Unsupported);
    assert_eq!(classify_set_errno(13), QuotaError::KernelError);
    assert_eq!(classify_set_errno(1), QuotaError::KernelError);
}

#[test]
fn test_quota_bytes_normalization() {
    let basic = build_basic_limit_record(1000, 2_097_152);
    assert_eq!(
        quota_bytes_from_outcome(&QuotaGetOutcome::Basic(basic)),
        1024 * 1024 * 1024
    );
    let kib = build_kib_limit_record(1_048_576);
    assert_eq!(
        quota_bytes_from_outcome(&QuotaGetOutcome::Kib(kib)),
        1024 * 1024 * 1024
    );
    // A failed read is "no quota", never an error.
    assert_eq!(quota_bytes_from_outcome(&QuotaGetOutcome::Failed(3)), 0);
    // Oversized block counts saturate instead of wrapping.
    let huge = BasicQuotaRecord { blk_hardlimit: u64::MAX, ..build_basic_limit_record(0, 0) };
    assert_eq!(quota_bytes_from_outcome(&QuotaGetOutcome::Basic(huge)), u64::MAX);
    let huge_kib = KibQuotaRecord { bhardlimit: u64::MAX, ..build_kib_limit_record(0) };
    assert_eq!(quota_bytes_from_outcome(&QuotaGetOutcome::Kib(huge_kib)), u64::MAX);
}

#[test]
fn test_quota_enumeration_scenario() {
    // A synthetic kernel table with entries for 1000, 1005 and 2000 must
    // yield exactly those ids and terminate on the terminal answer.
    let table = vec![1000u32, 1005, 2000];
    let found = enumerate_users_with_usage(&table, 100_000);
    assert_eq!(found, vec![1000, 1005, 2000]);
}

#[test]
fn test_quota_enumeration_filters_system_ids() {
    let table = vec![0u32, 33, 999, 1000, 65534];
    let found = enumerate_users_with_usage(&table, 100_000);
    assert_eq!(found, vec![1000, 65534]);
}

#[test]
fn test_quota_enumeration_empty() {
    let found = enumerate_users_with_usage(&Vec::new(), 100_000);
    assert!(found.is_empty());
}

#[test]
fn test_quota_enumeration_steps() {
    // Driving the state machine by hand: entries advance the cursor, the
    // terminal answer ends the walk at once.
    let mut st = enum_start();
    enum_step(&mut st, NextQuotaEvent::Entry(1000), 100);
    assert_eq!(st.next_id, 1001);
    assert_eq!(st.found, vec![1000]);
    assert!(!st.done);
    enum_step(&mut st, NextQuotaEvent::Entry(1005), 100);
    assert_eq!(st.next_id, 1006);
    enum_step(&mut st, NextQuotaEvent::NoMore, 100);
    assert!(st.done);
    assert_eq!(st.found, vec![1000, 1005]);

    // A kernel answer behind the cursor ends the walk instead of looping.
    let mut st = enum_start();
    enum_step(&mut st, NextQuotaEvent::Entry(5000), 100);
    assert_eq!(st.next_id, 5001);
    enum_step(&mut st, NextQuotaEvent::Entry(4000), 100);
    assert!(st.done);

    // The safety bound ends the walk.
    let mut st = enum_start();
    enum_step(&mut st, NextQuotaEvent::Entry(1), 2);
    assert!(!st.done);
    enum_step(&mut st, NextQuotaEvent::Entry(2), 2);
    assert!(st.done);

    // A failed answer ends the walk.
    let mut st = enum_start();
    enum_step(&mut st, NextQuotaEvent::Failed, 100);
    assert!(st.done);
}

#[test]
fn test_quota_lifecycle() {
    let s = QuotaLifecycle::NoQuota;
    let s = quota_lifecycle_step(s, QuotaLifecycleEvent::SetIssued);
    assert_eq!(s, QuotaLifecycle::Configuring);
    let s = quota_lifecycle_step(s, QuotaLifecycleEvent::SetSucceeded { limit_bytes: 1 << 30 });
    assert_eq!(s, QuotaLifecycle::Active);
    // Clearing the limit reverts, and a confirming read returns to NoQuota.
    let s = quota_lifecycle_step(s, QuotaLifecycleEvent::SetIssued);
    let s = quota_lifecycle_step(s, QuotaLifecycleEvent::SetSucceeded { limit_bytes: 0 });
    assert_eq!(s, QuotaLifecycle::Reverted);
    let s = quota_lifecycle_step(s, QuotaLifecycleEvent::GetReturned { limit_bytes: 0 });
    assert_eq!(s, QuotaLifecycle::NoQuota);
    // A failed set falls back to no quota.
    let s = quota_lifecycle_step(s, QuotaLifecycleEvent::SetIssued);
    let s = quota_lifecycle_step(s, QuotaLifecycleEvent::SetFailed);
    assert_eq!(s, QuotaLifecycle::NoQuota);
    // Observations do not move settled states.
    let s = quota_lifecycle_step(QuotaLifecycle::Active, QuotaLifecycleEvent::GetReturned { limit_bytes: 0 });
    assert_eq!(s, QuotaLifecycle::Active);
}
