//! Mount options: the generic ones become mount flags, the rest is handed to
//! the filesystem.
use vstd::prelude::*;
use crate::text::{push_chars, split, split_fields, str_chars};
use crate::text::chars_eq;

verus! {

pub const MS_DIRSYNC: u64 = 128;

pub const MS_LAZYTIME: u64 = 33554432;

pub const MS_MANDLOCK: u64 = 64;

pub const MS_NOATIME: u64 = 1024;

pub const MS_NODEV: u64 = 4;

pub const MS_NODIRATIME: u64 = 2048;

pub const MS_NOEXEC: u64 = 8;

pub const MS_NOSUID: u64 = 2;

pub const MS_RELATIME: u64 = 2097152;

pub const MS_REMOUNT: u64 = 32;

pub const MS_RDONLY: u64 = 1;

pub const MS_STRICTATIME: u64 = 16777216;

pub const MS_SYNCHRONOUS: u64 = 16;

/// The mount flag that a generic option sets; `rw` and the empty option set none.
pub open spec fn mount_flag_spec(o: Seq<char>) -> Option<u64> {
    if o == "dirsync"@ {
        Some(MS_DIRSYNC)
    }     else if o == "lazytime"@ {
        Some(MS_LAZYTIME)
    }     else if o == "mand"@ {
        Some(MS_MANDLOCK)
    }     else if o == "noatime"@ {
        Some(MS_NOATIME)
    }     else if o == "nodev"@ {
        Some(MS_NODEV)
    }     else if o == "nodiratime"@ {
        Some(MS_NODIRATIME)
    }     else if o == "noexec"@ {
        Some(MS_NOEXEC)
    }     else if o == "nosuid"@ {
        Some(MS_NOSUID)
    }     else if o == "relatime"@ {
        Some(MS_RELATIME)
    }     else if o == "remount"@ {
        Some(MS_REMOUNT)
    }     else if o == "ro"@ {
        Some(MS_RDONLY)
    }     else if o == "rw"@ {
        Some(0)
    }     else if o == "strictatime"@ {
        Some(MS_STRICTATIME)
    }     else if o == "sync"@ {
        Some(MS_SYNCHRONOUS)
    }     else if o == ""@ {
        Some(0)
    } else {
        None
    }
}

/// The mount flag that option `o` sets, if it is a generic one.
pub fn mount_flag(o: &Vec<char>) -> (r: Option<u64>)
    ensures
        r == mount_flag_spec(o@),
{
    if chars_eq(o, "dirsync") {
        return Some(MS_DIRSYNC);
    }
    if chars_eq(o, "lazytime") {
        return Some(MS_LAZYTIME);
    }
    if chars_eq(o, "mand") {
        return Some(MS_MANDLOCK);
    }
    if chars_eq(o, "noatime") {
        return Some(MS_NOATIME);
    }
    if chars_eq(o, "nodev") {
        return Some(MS_NODEV);
    }
    if chars_eq(o, "nodiratime") {
        return Some(MS_NODIRATIME);
    }
    if chars_eq(o, "noexec") {
        return Some(MS_NOEXEC);
    }
    if chars_eq(o, "nosuid") {
        return Some(MS_NOSUID);
    }
    if chars_eq(o, "relatime") {
        return Some(MS_RELATIME);
    }
    if chars_eq(o, "remount") {
        return Some(MS_REMOUNT);
    }
    if chars_eq(o, "ro") {
        return Some(MS_RDONLY);
    }
    if chars_eq(o, "rw") {
        return Some(0);
    }
    if chars_eq(o, "strictatime") {
        return Some(MS_STRICTATIME);
    }
    if chars_eq(o, "sync") {
        return Some(MS_SYNCHRONOUS);
    }
    if chars_eq(o, "") {
        return Some(0);
    }
    None
}

/// The union of the flags of the generic options among `os`.
pub open spec fn mount_flags_of(os: Seq<Seq<char>>) -> u64
    decreases os.len(),
{
    if os.len() == 0 {
        0
    } else {
        match mount_flag_spec(os.last()) {
            Some(f) => mount_flags_of(os.drop_last()) | f,
            None => mount_flags_of(os.drop_last()),
        }
    }
}

/// The options among `os` that are not generic, in order.
pub open spec fn fs_options_of(os: Seq<Seq<char>>) -> Seq<Seq<char>>
    decreases os.len(),
{
    if os.len() == 0 {
        Seq::<Seq<char>>::empty()
    } else {
        match mount_flag_spec(os.last()) {
            Some(f) => fs_options_of(os.drop_last()),
            None => fs_options_of(os.drop_last()).push(os.last()),
        }
    }
}

/// `parts` joined by `sep`.
pub open spec fn join(parts: Seq<Seq<char>>, sep: char) -> Seq<char>
    decreases parts.len(),
{
    if parts.len() == 0 {
        Seq::<char>::empty()
    } else if parts.len() == 1 {
        parts[0]
    } else {
        join(parts.drop_last(), sep) + seq![sep] + parts.last()
    }
}

/// Splits comma-separated mount options into the options for the filesystem,
/// joined by commas (none if there are none), and the mount flags of the
/// generic ones.
pub fn parse_mount_options(options: &str) -> (r: (Option<String>, u64))
    ensures
        fs_options_of(split(options@, ',')).len() == 0 ==> r.0 is None,
        fs_options_of(split(options@, ',')).len() > 0 ==> (r.0 matches Some(d) && d@ == join(
            fs_options_of(split(options@, ',')),
            ',',
        )),
        r.1 == mount_flags_of(split(options@, ',')),
{
    let cs = str_chars(options);
    let fields = split_fields(&cs, ',');
    let ghost all = split(options@, ',');
    let mut data = String::new();
    let mut any_opts = false;
    let mut flags: u64 = 0;
    let mut i: usize = 0;
    while i < fields.len()
        invariant
            fields@.len() == all.len(),
            forall|j: int| 0 <= j < fields@.len() ==> #[trigger] fields@[j]@ == all[j],
            i <= fields@.len(),
            any_opts == (fs_options_of(all.subrange(0, i as int)).len() > 0),
            data@ == join(fs_options_of(all.subrange(0, i as int)), ','),
            flags == mount_flags_of(all.subrange(0, i as int)),
        decreases fields@.len() - i,
    {
        let f = &fields[i];
        let ghost pre = all.subrange(0, i as int);
        let ghost next = all.subrange(0, i + 1);
        assert(next.drop_last() =~= pre);
        assert(next.last() == f@);
        match mount_flag(f) {
            Some(fl) => {
                flags = flags | fl;
            },
            None => {
                if any_opts {
                    proof {
                        reveal_strlit(",");
                    }
                    data.append(",");
                }
                push_chars(&mut data, f);
                proof {
                    let o = fs_options_of(pre);
                    if o.len() == 0 {
                        assert(o.push(f@) =~= seq![f@]);
                        assert(data@ =~= join(o.push(f@), ','));
                    } else {
                        assert(o.push(f@).drop_last() =~= o);
                        assert(data@ =~= join(o.push(f@), ','));
                    }
                }
                any_opts = true;
            },
        }
        i += 1;
    }
    assert(all.subrange(0, all.len() as int) =~= all);
    if !any_opts {
        (None, flags)
    } else {
        (Some(data), flags)
    }
}

/// Error number: permission denied.
pub const EACCES: i32 = 13;

/// Error number: read-only filesystem.
pub const EROFS: i32 = 30;

/// Error number: device or resource busy.
pub const EBUSY: i32 = 16;

/// After a mount attempt with `flags` that ended with `errno` (0 on success):
/// the flags to try again with, when a write-protected device should be
/// mounted read-only, or none to stop.
pub fn mount_retry_flags(errno: i32, flags: u64) -> (r: Option<u64>)
    ensures
        r is Some <==> (errno == EACCES || errno == EROFS) && flags & MS_RDONLY == 0,
        r matches Some(f) ==> f == flags | MS_RDONLY,
{
    if (errno == EACCES || errno == EROFS) && flags & MS_RDONLY == 0 {
        Some(flags | MS_RDONLY)
    } else {
        None
    }
}

} // verus!
