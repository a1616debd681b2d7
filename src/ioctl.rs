//! Requests that the filesystem takes through `ioctl`: subvolume creation,
//! deletion and snapshots.
use vstd::prelude::*;

verus! {

/// The ioctl type byte of bcachefs.
pub const BCH_IOCTL_TYPE: u32 = 0xbc;

/// Size in bytes of a subvolume request.
pub const BCH_IOCTL_SUBVOLUME_SIZE: u32 = 32;

pub const BCH_SUBVOL_SNAPSHOT_CREATE: u32 = 1;

pub const BCH_SUBVOL_SNAPSHOT_RO: u32 = 2;

/// The directory descriptor meaning "relative to the working directory".
pub const AT_FDCWD: i32 = -100;

/// Mode given to a new subvolume.
pub const SUBVOLUME_MODE: u16 = 0o777;

/// The number of an ioctl that passes `size` bytes to the kernel.
pub open spec fn ioc_w_spec(ty: u32, nr: u32, size: u32) -> u32 {
    (0x4000_0000 + size * 0x10000 + ty * 0x100 + nr) as u32
}

/// The number of an ioctl that passes `size` bytes to the kernel.
pub fn ioc_w(ty: u32, nr: u32, size: u32) -> (r: u32)
    requires
        ty < 0x100,
        nr < 0x100,
        size < 0x4000,
    ensures
        r == ioc_w_spec(ty, nr, size),
{
    0x4000_0000 + size * 0x10000 + ty * 0x100 + nr
}

/// The ioctls that this library builds requests for.
#[derive(Clone, Copy, Debug, PartialEq, Eq, Structural)]
pub enum BcachefsIoctl {
    SubvolumeCreate,
    SubvolumeDestroy,
}

impl BcachefsIoctl {
    /// The request number of the ioctl.
    pub fn request(&self) -> (r: u32)
        ensures
            r == ioc_w_spec(
                BCH_IOCTL_TYPE,
                match self {
                    BcachefsIoctl::SubvolumeCreate => 16,
                    BcachefsIoctl::SubvolumeDestroy => 17,
                },
                BCH_IOCTL_SUBVOLUME_SIZE,
            ),
    {
        match self {
            BcachefsIoctl::SubvolumeCreate => ioc_w(BCH_IOCTL_TYPE, 16, BCH_IOCTL_SUBVOLUME_SIZE),
            BcachefsIoctl::SubvolumeDestroy => ioc_w(BCH_IOCTL_TYPE, 17, BCH_IOCTL_SUBVOLUME_SIZE),
        }
    }
}

/// A subvolume request: paths are passed as addresses of NUL-terminated strings.
#[derive(Clone, Copy, Debug, PartialEq, Eq, Structural)]
pub struct BchIoctlSubvolume {
    pub flags: u32,
    pub dirfd: u32,
    pub mode: u16,
    pub dst_ptr: u64,
    pub src_ptr: u64,
}

/// What an ioctl passes.
#[derive(Clone, Copy, Debug, PartialEq, Eq, Structural)]
pub enum BcachefsIoctlPayload {
    Subvolume(BchIoctlSubvolume),
}

/// The request that creates the subvolume at the path whose address is `dst_ptr`.
pub fn create_subvolume_request(dst_ptr: u64) -> (r: (BcachefsIoctl, BcachefsIoctlPayload))
    ensures
        r == (BcachefsIoctl::SubvolumeCreate, BcachefsIoctlPayload::Subvolume(
            BchIoctlSubvolume {
                flags: 0,
                dirfd: AT_FDCWD as u32,
                mode: SUBVOLUME_MODE,
                dst_ptr,
                src_ptr: 0,
            },
        )),
{
    (
        BcachefsIoctl::SubvolumeCreate,
        BcachefsIoctlPayload::Subvolume(
            BchIoctlSubvolume {
                flags: 0,
                dirfd: AT_FDCWD as u32,
                mode: SUBVOLUME_MODE,
                dst_ptr,
                src_ptr: 0,
            },
        ),
    )
}

/// The request that deletes the subvolume at the path whose address is `dst_ptr`.
pub fn delete_subvolume_request(dst_ptr: u64) -> (r: (BcachefsIoctl, BcachefsIoctlPayload))
    ensures
        r == (BcachefsIoctl::SubvolumeDestroy, BcachefsIoctlPayload::Subvolume(
            BchIoctlSubvolume {
                flags: 0,
                dirfd: AT_FDCWD as u32,
                mode: SUBVOLUME_MODE,
                dst_ptr,
                src_ptr: 0,
            },
        )),
{
    (
        BcachefsIoctl::SubvolumeDestroy,
        BcachefsIoctlPayload::Subvolume(
            BchIoctlSubvolume {
                flags: 0,
                dirfd: AT_FDCWD as u32,
                mode: SUBVOLUME_MODE,
                dst_ptr,
                src_ptr: 0,
            },
        ),
    )
}

/// The request that snapshots the subvolume at `src_ptr` (the one holding the
/// working directory when there is none) to `dst_ptr`; `read_only` makes the
/// snapshot read-only.
pub fn snapshot_subvolume_request(read_only: bool, src_ptr: Option<u64>, dst_ptr: u64) -> (r: (
    BcachefsIoctl,
    BcachefsIoctlPayload,
))
    ensures
        r == (BcachefsIoctl::SubvolumeCreate, BcachefsIoctlPayload::Subvolume(
            BchIoctlSubvolume {
                flags: BCH_SUBVOL_SNAPSHOT_CREATE | if read_only {
                    BCH_SUBVOL_SNAPSHOT_RO
                } else {
                    0
                },
                dirfd: AT_FDCWD as u32,
                mode: SUBVOLUME_MODE,
                dst_ptr,
                src_ptr: match src_ptr {
                    Some(p) => p,
                    None => 0,
                },
            },
        )),
{
    let extra: u32 = if read_only {
        BCH_SUBVOL_SNAPSHOT_RO
    } else {
        0
    };
    let src = match src_ptr {
        Some(p) => p,
        None => 0,
    };
    (
        BcachefsIoctl::SubvolumeCreate,
        BcachefsIoctlPayload::Subvolume(
            BchIoctlSubvolume {
                flags: BCH_SUBVOL_SNAPSHOT_CREATE | extra,
                dirfd: AT_FDCWD as u32,
                mode: SUBVOLUME_MODE,
                dst_ptr,
                src_ptr: src,
            },
        ),
    )
}

} // verus!
