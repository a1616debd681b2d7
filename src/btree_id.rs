//! Btree identifiers, by number and by name.
use vstd::prelude::*;
use crate::errcode::BchToolsErr;
use crate::text::{chars_eq, str_chars};

verus! {

/// Number of btrees in a filesystem.
pub const BTREE_ID_NR: u32 = 20;

/// The btrees of a filesystem.
#[derive(Clone, Copy, Debug, PartialEq, Eq, Structural, Hash)]
pub enum BtreeId {
    Extents,
    Inodes,
    Dirents,
    Xattrs,
    Alloc,
    Quotas,
    Stripes,
    Reflink,
    Subvolumes,
    Snapshots,
    Lru,
    Freespace,
    NeedDiscard,
    Backpointers,
    BucketGens,
    SnapshotTrees,
    DeletedInodes,
    LoggedOps,
    RebalanceWork,
    SubvolumeChildren,
}

/// The number of each btree.
pub open spec fn btree_id_index(b: BtreeId) -> u32 {
    match b {
        BtreeId::Extents => 0,
        BtreeId::Inodes => 1,
        BtreeId::Dirents => 2,
        BtreeId::Xattrs => 3,
        BtreeId::Alloc => 4,
        BtreeId::Quotas => 5,
        BtreeId::Stripes => 6,
        BtreeId::Reflink => 7,
        BtreeId::Subvolumes => 8,
        BtreeId::Snapshots => 9,
        BtreeId::Lru => 10,
        BtreeId::Freespace => 11,
        BtreeId::NeedDiscard => 12,
        BtreeId::Backpointers => 13,
        BtreeId::BucketGens => 14,
        BtreeId::SnapshotTrees => 15,
        BtreeId::DeletedInodes => 16,
        BtreeId::LoggedOps => 17,
        BtreeId::RebalanceWork => 18,
        BtreeId::SubvolumeChildren => 19,
    }
}

/// The name of each btree.
pub open spec fn btree_id_name_spec(b: BtreeId) -> Seq<char> {
    match b {
        BtreeId::Extents => "extents"@,
        BtreeId::Inodes => "inodes"@,
        BtreeId::Dirents => "dirents"@,
        BtreeId::Xattrs => "xattrs"@,
        BtreeId::Alloc => "alloc"@,
        BtreeId::Quotas => "quotas"@,
        BtreeId::Stripes => "stripes"@,
        BtreeId::Reflink => "reflink"@,
        BtreeId::Subvolumes => "subvolumes"@,
        BtreeId::Snapshots => "snapshots"@,
        BtreeId::Lru => "lru"@,
        BtreeId::Freespace => "freespace"@,
        BtreeId::NeedDiscard => "need_discard"@,
        BtreeId::Backpointers => "backpointers"@,
        BtreeId::BucketGens => "bucket_gens"@,
        BtreeId::SnapshotTrees => "snapshot_trees"@,
        BtreeId::DeletedInodes => "deleted_inodes"@,
        BtreeId::LoggedOps => "logged_ops"@,
        BtreeId::RebalanceWork => "rebalance_work"@,
        BtreeId::SubvolumeChildren => "subvolume_children"@,
    }
}

pub proof fn lemma_btree_id_index_injective(a: BtreeId, b: BtreeId)
    requires
        btree_id_index(a) == btree_id_index(b),
    ensures
        a == b,
{
}

pub proof fn lemma_btree_id_index_bound(a: BtreeId)
    ensures
        btree_id_index(a) < BTREE_ID_NR,
{
}

impl BtreeId {
    /// The number of this btree.
    pub fn index(&self) -> (r: u32)
        ensures
            r == btree_id_index(*self),
    {
        match self {
            BtreeId::Extents => 0,
            BtreeId::Inodes => 1,
            BtreeId::Dirents => 2,
            BtreeId::Xattrs => 3,
            BtreeId::Alloc => 4,
            BtreeId::Quotas => 5,
            BtreeId::Stripes => 6,
            BtreeId::Reflink => 7,
            BtreeId::Subvolumes => 8,
            BtreeId::Snapshots => 9,
            BtreeId::Lru => 10,
            BtreeId::Freespace => 11,
            BtreeId::NeedDiscard => 12,
            BtreeId::Backpointers => 13,
            BtreeId::BucketGens => 14,
            BtreeId::SnapshotTrees => 15,
            BtreeId::DeletedInodes => 16,
            BtreeId::LoggedOps => 17,
            BtreeId::RebalanceWork => 18,
            BtreeId::SubvolumeChildren => 19,
        }
    }

    /// The btree with number `i`, if there is one.
    pub fn from_index(i: u32) -> (r: Option<BtreeId>)
        ensures
            r is Some <==> i < BTREE_ID_NR,
            r matches Some(b) ==> btree_id_index(b) == i,
    {
        match i {
            0 => Some(BtreeId::Extents),
            1 => Some(BtreeId::Inodes),
            2 => Some(BtreeId::Dirents),
            3 => Some(BtreeId::Xattrs),
            4 => Some(BtreeId::Alloc),
            5 => Some(BtreeId::Quotas),
            6 => Some(BtreeId::Stripes),
            7 => Some(BtreeId::Reflink),
            8 => Some(BtreeId::Subvolumes),
            9 => Some(BtreeId::Snapshots),
            10 => Some(BtreeId::Lru),
            11 => Some(BtreeId::Freespace),
            12 => Some(BtreeId::NeedDiscard),
            13 => Some(BtreeId::Backpointers),
            14 => Some(BtreeId::BucketGens),
            15 => Some(BtreeId::SnapshotTrees),
            16 => Some(BtreeId::DeletedInodes),
            17 => Some(BtreeId::LoggedOps),
            18 => Some(BtreeId::RebalanceWork),
            19 => Some(BtreeId::SubvolumeChildren),
            _ => None,
        }
    }

    /// The name of this btree.
    pub fn name(&self) -> (r: &'static str)
        ensures
            r@ == btree_id_name_spec(*self),
    {
        match self {
            BtreeId::Extents => "extents",
            BtreeId::Inodes => "inodes",
            BtreeId::Dirents => "dirents",
            BtreeId::Xattrs => "xattrs",
            BtreeId::Alloc => "alloc",
            BtreeId::Quotas => "quotas",
            BtreeId::Stripes => "stripes",
            BtreeId::Reflink => "reflink",
            BtreeId::Subvolumes => "subvolumes",
            BtreeId::Snapshots => "snapshots",
            BtreeId::Lru => "lru",
            BtreeId::Freespace => "freespace",
            BtreeId::NeedDiscard => "need_discard",
            BtreeId::Backpointers => "backpointers",
            BtreeId::BucketGens => "bucket_gens",
            BtreeId::SnapshotTrees => "snapshot_trees",
            BtreeId::DeletedInodes => "deleted_inodes",
            BtreeId::LoggedOps => "logged_ops",
            BtreeId::RebalanceWork => "rebalance_work",
            BtreeId::SubvolumeChildren => "subvolume_children",
        }
    }

    /// Looks a btree up by its name.
    pub fn from_str(s: &str) -> (r: Result<BtreeId, BchToolsErr>)
        ensures
            r matches Ok(b) ==> btree_id_name_spec(b) == s@,
            r is Err ==> r == Err::<BtreeId, BchToolsErr>(BchToolsErr::InvalidBtreeId)
                && forall|b: BtreeId| btree_id_name_spec(b) != s@,
    {
        let cs = str_chars(s);
        let mut i: u32 = 0;
        while i < BTREE_ID_NR
            invariant
                cs@ == s@,
                i <= BTREE_ID_NR,
                forall|b: BtreeId| btree_id_index(b) < i ==> btree_id_name_spec(b) != s@,
            decreases BTREE_ID_NR - i,
        {
            let b = match BtreeId::from_index(i) {
                Some(b) => b,
                None => return Err(BchToolsErr::InvalidBtreeId),
            };
            if chars_eq(&cs, b.name()) {
                return Ok(b);
            }
            proof {
                assert forall|u: BtreeId| btree_id_index(u) < i + 1 implies btree_id_name_spec(u) != s@ by {
                    if btree_id_index(u) == i {
                        lemma_btree_id_index_injective(u, b);
                    }
                }
            }
            i += 1;
        }
        proof {
            assert forall|b: BtreeId| btree_id_name_spec(b) != s@ by {
                lemma_btree_id_index_bound(b);
            }
        }
        Err(BchToolsErr::InvalidBtreeId)
    }
}

impl core::str::FromStr for BtreeId {
    type Err = BchToolsErr;

    fn from_str(s: &str) -> Result<BtreeId, BchToolsErr> {
        BtreeId::from_str(s)
    }
}

} // verus!
