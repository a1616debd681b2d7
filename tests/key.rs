use bcachefs::btree_id::BtreeId;
use bcachefs::errcode::BchToolsErr;
use bcachefs::ioctl::{
    create_subvolume_request, delete_subvolume_request, ioc_w, snapshot_subvolume_request,
    BcachefsIoctl, BcachefsIoctlPayload, BchIoctlSubvolume, AT_FDCWD,
};
use bcachefs::key::{unlock_plan, UnlockMethod, UnlockPlan, UnlockPolicy};

#[test]
fn default_policy_asks() {
    assert_eq!(UnlockPolicy::default(), UnlockPolicy::Ask);
    assert_eq!(UnlockPolicy::Stdin.name(), "Stdin");
}

#[test]
fn explicit_policy_is_used_alone() {
    assert_eq!(
        unlock_plan(Some(UnlockPolicy::Fail), true, true),
        UnlockPlan { first: UnlockMethod::SearchKeyring, fallback: None }
    );
    assert_eq!(
        unlock_plan(Some(UnlockPolicy::Wait), false, false),
        UnlockPlan { first: UnlockMethod::WaitForKey, fallback: None }
    );
}

#[test]
fn passphrase_file_then_keyring() {
    assert_eq!(
        unlock_plan(None, true, true),
        UnlockPlan { first: UnlockMethod::ReadFile, fallback: None }
    );
    assert_eq!(
        unlock_plan(None, false, true),
        UnlockPlan { first: UnlockMethod::SearchKeyring, fallback: Some(UnlockMethod::Prompt) }
    );
    assert_eq!(
        unlock_plan(None, false, false),
        UnlockPlan { first: UnlockMethod::SearchKeyring, fallback: Some(UnlockMethod::ReadStdin) }
    );
}

#[test]
fn ioctl_numbers() {
    assert_eq!(ioc_w(0xbc, 16, 32), 0x4020bc10);
    assert_eq!(BcachefsIoctl::SubvolumeCreate.request(), 0x4020bc10);
    assert_eq!(BcachefsIoctl::SubvolumeDestroy.request(), 0x4020bc11);
}

#[test]
fn subvolume_requests() {
    let base = BchIoctlSubvolume { flags: 0, dirfd: AT_FDCWD as u32, mode: 0o777, dst_ptr: 0x1000, src_ptr: 0 };
    assert_eq!(
        create_subvolume_request(0x1000),
        (BcachefsIoctl::SubvolumeCreate, BcachefsIoctlPayload::Subvolume(base))
    );
    assert_eq!(
        delete_subvolume_request(0x1000),
        (BcachefsIoctl::SubvolumeDestroy, BcachefsIoctlPayload::Subvolume(base))
    );
    let snap = BchIoctlSubvolume { flags: 3, src_ptr: 0x2000, ..base };
    assert_eq!(
        snapshot_subvolume_request(true, Some(0x2000), 0x1000),
        (BcachefsIoctl::SubvolumeCreate, BcachefsIoctlPayload::Subvolume(snap))
    );
    let snap_rw = BchIoctlSubvolume { flags: 1, ..base };
    assert_eq!(
        snapshot_subvolume_request(false, None, 0x1000),
        (BcachefsIoctl::SubvolumeCreate, BcachefsIoctlPayload::Subvolume(snap_rw))
    );
}

#[test]
fn btree_names() {
    assert_eq!(BtreeId::from_str("extents"), Ok(BtreeId::Extents));
    assert_eq!("subvolume_children".parse::<BtreeId>(), Ok(BtreeId::SubvolumeChildren));
    assert_eq!(BtreeId::from_str("nope"), Err(BchToolsErr::InvalidBtreeId));
    assert_eq!(BtreeId::Alloc.name(), "alloc");
    assert_eq!(BtreeId::from_index(20), None);
    assert_eq!(BtreeId::from_index(4), Some(BtreeId::Alloc));
}
