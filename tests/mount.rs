use bcachefs::mount::{
    mount_retry_flags, parse_mount_options, EACCES, EBUSY, EROFS, MS_DIRSYNC, MS_LAZYTIME, MS_MANDLOCK, MS_NOATIME, MS_NODEV,
    MS_NODIRATIME, MS_NOEXEC, MS_NOSUID, MS_RDONLY, MS_RELATIME, MS_REMOUNT, MS_STRICTATIME,
    MS_SYNCHRONOUS,
};

#[test]
fn mount_flags_match_the_system_values() {
    assert_eq!(MS_RDONLY, libc::MS_RDONLY as u64);
    assert_eq!(MS_NOSUID, libc::MS_NOSUID as u64);
    assert_eq!(MS_NODEV, libc::MS_NODEV as u64);
    assert_eq!(MS_NOEXEC, libc::MS_NOEXEC as u64);
    assert_eq!(MS_SYNCHRONOUS, libc::MS_SYNCHRONOUS as u64);
    assert_eq!(MS_REMOUNT, libc::MS_REMOUNT as u64);
    assert_eq!(MS_MANDLOCK, libc::MS_MANDLOCK as u64);
    assert_eq!(MS_DIRSYNC, libc::MS_DIRSYNC as u64);
    assert_eq!(MS_NOATIME, libc::MS_NOATIME as u64);
    assert_eq!(MS_NODIRATIME, libc::MS_NODIRATIME as u64);
    assert_eq!(MS_RELATIME, libc::MS_RELATIME as u64);
    assert_eq!(MS_STRICTATIME, libc::MS_STRICTATIME as u64);
    assert_eq!(MS_LAZYTIME, libc::MS_LAZYTIME as u64);
}

#[test]
fn generic_options_become_flags() {
    assert_eq!(parse_mount_options("ro,noatime"), (None, MS_RDONLY | MS_NOATIME));
    assert_eq!(parse_mount_options("rw"), (None, 0));
    assert_eq!(parse_mount_options(""), (None, 0));
    assert_eq!(parse_mount_options("lazytime,sync"), (None, MS_LAZYTIME | MS_SYNCHRONOUS));
}

#[test]
fn other_options_go_to_the_filesystem() {
    assert_eq!(
        parse_mount_options("verbose,ro,degraded"),
        (Some("verbose,degraded".to_string()), MS_RDONLY)
    );
    assert_eq!(parse_mount_options("fsck"), (Some("fsck".to_string()), 0));
    assert_eq!(parse_mount_options(",,nodev,"), (None, MS_NODEV));
    assert_eq!(parse_mount_options("RO"), (Some("RO".to_string()), 0));
}

#[test]
fn error_numbers_match_the_system_values() {
    assert_eq!(EACCES, libc::EACCES);
    assert_eq!(EROFS, libc::EROFS);
    assert_eq!(EBUSY, libc::EBUSY);
}

#[test]
fn write_protected_devices_are_retried_read_only() {
    assert_eq!(mount_retry_flags(EROFS, MS_NOATIME), Some(MS_NOATIME | MS_RDONLY));
    assert_eq!(mount_retry_flags(EACCES, 0), Some(MS_RDONLY));
    assert_eq!(mount_retry_flags(EROFS, MS_RDONLY), None);
    assert_eq!(mount_retry_flags(EBUSY, 0), None);
    assert_eq!(mount_retry_flags(0, 0), None);
}
