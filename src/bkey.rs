//! Keys, their type tags, and the typed view of a key and its value.
use vstd::prelude::*;
use crate::bpos::{bpos_text, Bpos};
use crate::btree::Fs;
use crate::errcode::{BchErrcode, BchToolsErr};
use crate::printbuf::{hex, Printbuf};
use crate::text::{chars_eq, dec, str_chars};

verus! {

/// Number of known key types; tags from this value up are not defined.
pub const KEY_TYPE_MAX: u8 = 34;

/// The kinds of value a key can carry, one per type tag.
#[derive(Clone, Copy, Debug, PartialEq, Eq, Structural, Hash)]
pub enum BkeyType {
    Deleted,
    Whiteout,
    Error,
    Cookie,
    HashWhiteout,
    BtreePtr,
    Extent,
    Reservation,
    Inode,
    InodeGeneration,
    Dirent,
    Xattr,
    Alloc,
    Quota,
    Stripe,
    ReflinkP,
    ReflinkV,
    InlineData,
    BtreePtrV2,
    IndirectInlineData,
    AllocV2,
    Subvolume,
    Snapshot,
    InodeV2,
    AllocV3,
    SetEntry,
    Lru,
    AllocV4,
    Backpointer,
    InodeV3,
    BucketGens,
    SnapshotTree,
    LoggedOpTruncate,
    LoggedOpFinsert,
}

/// The type tag of each key type.
pub open spec fn bkey_type_tag(t: BkeyType) -> u8 {
    match t {
        BkeyType::Deleted => 0,
        BkeyType::Whiteout => 1,
        BkeyType::Error => 2,
        BkeyType::Cookie => 3,
        BkeyType::HashWhiteout => 4,
        BkeyType::BtreePtr => 5,
        BkeyType::Extent => 6,
        BkeyType::Reservation => 7,
        BkeyType::Inode => 8,
        BkeyType::InodeGeneration => 9,
        BkeyType::Dirent => 10,
        BkeyType::Xattr => 11,
        BkeyType::Alloc => 12,
        BkeyType::Quota => 13,
        BkeyType::Stripe => 14,
        BkeyType::ReflinkP => 15,
        BkeyType::ReflinkV => 16,
        BkeyType::InlineData => 17,
        BkeyType::BtreePtrV2 => 18,
        BkeyType::IndirectInlineData => 19,
        BkeyType::AllocV2 => 20,
        BkeyType::Subvolume => 21,
        BkeyType::Snapshot => 22,
        BkeyType::InodeV2 => 23,
        BkeyType::AllocV3 => 24,
        BkeyType::SetEntry => 25,
        BkeyType::Lru => 26,
        BkeyType::AllocV4 => 27,
        BkeyType::Backpointer => 28,
        BkeyType::InodeV3 => 29,
        BkeyType::BucketGens => 30,
        BkeyType::SnapshotTree => 31,
        BkeyType::LoggedOpTruncate => 32,
        BkeyType::LoggedOpFinsert => 33,
    }
}

/// The name of each key type.
pub open spec fn bkey_type_name_spec(t: BkeyType) -> Seq<char> {
    match t {
        BkeyType::Deleted => "deleted"@,
        BkeyType::Whiteout => "whiteout"@,
        BkeyType::Error => "error"@,
        BkeyType::Cookie => "cookie"@,
        BkeyType::HashWhiteout => "hash_whiteout"@,
        BkeyType::BtreePtr => "btree_ptr"@,
        BkeyType::Extent => "extent"@,
        BkeyType::Reservation => "reservation"@,
        BkeyType::Inode => "inode"@,
        BkeyType::InodeGeneration => "inode_generation"@,
        BkeyType::Dirent => "dirent"@,
        BkeyType::Xattr => "xattr"@,
        BkeyType::Alloc => "alloc"@,
        BkeyType::Quota => "quota"@,
        BkeyType::Stripe => "stripe"@,
        BkeyType::ReflinkP => "reflink_p"@,
        BkeyType::ReflinkV => "reflink_v"@,
        BkeyType::InlineData => "inline_data"@,
        BkeyType::BtreePtrV2 => "btree_ptr_v2"@,
        BkeyType::IndirectInlineData => "indirect_inline_data"@,
        BkeyType::AllocV2 => "alloc_v2"@,
        BkeyType::Subvolume => "subvolume"@,
        BkeyType::Snapshot => "snapshot"@,
        BkeyType::InodeV2 => "inode_v2"@,
        BkeyType::AllocV3 => "alloc_v3"@,
        BkeyType::SetEntry => "set"@,
        BkeyType::Lru => "lru"@,
        BkeyType::AllocV4 => "alloc_v4"@,
        BkeyType::Backpointer => "backpointer"@,
        BkeyType::InodeV3 => "inode_v3"@,
        BkeyType::BucketGens => "bucket_gens"@,
        BkeyType::SnapshotTree => "snapshot_tree"@,
        BkeyType::LoggedOpTruncate => "logged_op_truncate"@,
        BkeyType::LoggedOpFinsert => "logged_op_finsert"@,
    }
}

impl BkeyType {
    /// The type tag of this key type.
    pub fn tag(&self) -> (r: u8)
        ensures
            r == bkey_type_tag(*self),
    {
        match self {
            BkeyType::Deleted => 0,
            BkeyType::Whiteout => 1,
            BkeyType::Error => 2,
            BkeyType::Cookie => 3,
            BkeyType::HashWhiteout => 4,
            BkeyType::BtreePtr => 5,
            BkeyType::Extent => 6,
            BkeyType::Reservation => 7,
            BkeyType::Inode => 8,
            BkeyType::InodeGeneration => 9,
            BkeyType::Dirent => 10,
            BkeyType::Xattr => 11,
            BkeyType::Alloc => 12,
            BkeyType::Quota => 13,
            BkeyType::Stripe => 14,
            BkeyType::ReflinkP => 15,
            BkeyType::ReflinkV => 16,
            BkeyType::InlineData => 17,
            BkeyType::BtreePtrV2 => 18,
            BkeyType::IndirectInlineData => 19,
            BkeyType::AllocV2 => 20,
            BkeyType::Subvolume => 21,
            BkeyType::Snapshot => 22,
            BkeyType::InodeV2 => 23,
            BkeyType::AllocV3 => 24,
            BkeyType::SetEntry => 25,
            BkeyType::Lru => 26,
            BkeyType::AllocV4 => 27,
            BkeyType::Backpointer => 28,
            BkeyType::InodeV3 => 29,
            BkeyType::BucketGens => 30,
            BkeyType::SnapshotTree => 31,
            BkeyType::LoggedOpTruncate => 32,
            BkeyType::LoggedOpFinsert => 33,
        }
    }

    /// The key type of a tag, if the tag is defined.
    pub fn from_tag(tag: u8) -> (r: Option<BkeyType>)
        ensures
            r is Some <==> tag < KEY_TYPE_MAX,
            r matches Some(t) ==> bkey_type_tag(t) == tag,
    {
        match tag {
            0 => Some(BkeyType::Deleted),
            1 => Some(BkeyType::Whiteout),
            2 => Some(BkeyType::Error),
            3 => Some(BkeyType::Cookie),
            4 => Some(BkeyType::HashWhiteout),
            5 => Some(BkeyType::BtreePtr),
            6 => Some(BkeyType::Extent),
            7 => Some(BkeyType::Reservation),
            8 => Some(BkeyType::Inode),
            9 => Some(BkeyType::InodeGeneration),
            10 => Some(BkeyType::Dirent),
            11 => Some(BkeyType::Xattr),
            12 => Some(BkeyType::Alloc),
            13 => Some(BkeyType::Quota),
            14 => Some(BkeyType::Stripe),
            15 => Some(BkeyType::ReflinkP),
            16 => Some(BkeyType::ReflinkV),
            17 => Some(BkeyType::InlineData),
            18 => Some(BkeyType::BtreePtrV2),
            19 => Some(BkeyType::IndirectInlineData),
            20 => Some(BkeyType::AllocV2),
            21 => Some(BkeyType::Subvolume),
            22 => Some(BkeyType::Snapshot),
            23 => Some(BkeyType::InodeV2),
            24 => Some(BkeyType::AllocV3),
            25 => Some(BkeyType::SetEntry),
            26 => Some(BkeyType::Lru),
            27 => Some(BkeyType::AllocV4),
            28 => Some(BkeyType::Backpointer),
            29 => Some(BkeyType::InodeV3),
            30 => Some(BkeyType::BucketGens),
            31 => Some(BkeyType::SnapshotTree),
            32 => Some(BkeyType::LoggedOpTruncate),
            33 => Some(BkeyType::LoggedOpFinsert),
            _ => None,
        }
    }

    /// The name of this key type.
    pub fn name(&self) -> (r: &'static str)
        ensures
            r@ == bkey_type_name_spec(*self),
    {
        match self {
            BkeyType::Deleted => "deleted",
            BkeyType::Whiteout => "whiteout",
            BkeyType::Error => "error",
            BkeyType::Cookie => "cookie",
            BkeyType::HashWhiteout => "hash_whiteout",
            BkeyType::BtreePtr => "btree_ptr",
            BkeyType::Extent => "extent",
            BkeyType::Reservation => "reservation",
            BkeyType::Inode => "inode",
            BkeyType::InodeGeneration => "inode_generation",
            BkeyType::Dirent => "dirent",
            BkeyType::Xattr => "xattr",
            BkeyType::Alloc => "alloc",
            BkeyType::Quota => "quota",
            BkeyType::Stripe => "stripe",
            BkeyType::ReflinkP => "reflink_p",
            BkeyType::ReflinkV => "reflink_v",
            BkeyType::InlineData => "inline_data",
            BkeyType::BtreePtrV2 => "btree_ptr_v2",
            BkeyType::IndirectInlineData => "indirect_inline_data",
            BkeyType::AllocV2 => "alloc_v2",
            BkeyType::Subvolume => "subvolume",
            BkeyType::Snapshot => "snapshot",
            BkeyType::InodeV2 => "inode_v2",
            BkeyType::AllocV3 => "alloc_v3",
            BkeyType::SetEntry => "set",
            BkeyType::Lru => "lru",
            BkeyType::AllocV4 => "alloc_v4",
            BkeyType::Backpointer => "backpointer",
            BkeyType::InodeV3 => "inode_v3",
            BkeyType::BucketGens => "bucket_gens",
            BkeyType::SnapshotTree => "snapshot_tree",
            BkeyType::LoggedOpTruncate => "logged_op_truncate",
            BkeyType::LoggedOpFinsert => "logged_op_finsert",
        }
    }

    /// Looks a key type up by its name.
    pub fn from_str(s: &str) -> (r: Result<BkeyType, BchToolsErr>)
        ensures
            r matches Ok(t) ==> bkey_type_name_spec(t) == s@,
            r is Err ==> r == Err::<BkeyType, BchToolsErr>(BchToolsErr::InvalidBkeyType)
                && forall|t: BkeyType| bkey_type_name_spec(t) != s@,
    {
        let cs = str_chars(s);
        let mut tag: u8 = 0;
        while tag < KEY_TYPE_MAX
            invariant
                cs@ == s@,
                tag <= KEY_TYPE_MAX,
                forall|t: BkeyType| bkey_type_tag(t) < tag ==> bkey_type_name_spec(t) != s@,
            decreases KEY_TYPE_MAX - tag,
        {
            let t = match BkeyType::from_tag(tag) {
                Some(t) => t,
                None => return Err(BchToolsErr::InvalidBkeyType),
            };
            if chars_eq(&cs, t.name()) {
                return Ok(t);
            }
            proof {
                assert forall|u: BkeyType| bkey_type_tag(u) < tag + 1 implies bkey_type_name_spec(u) != s@ by {
                    if bkey_type_tag(u) == tag {
                        lemma_bkey_type_tag_injective(u, t);
                    }
                }
            }
            tag += 1;
        }
        proof {
            assert forall|t: BkeyType| bkey_type_name_spec(t) != s@ by {
                lemma_bkey_type_tag_bound(t);
            }
        }
        Err(BchToolsErr::InvalidBkeyType)
    }
}

pub proof fn lemma_bkey_type_tag_injective(a: BkeyType, b: BkeyType)
    requires
        bkey_type_tag(a) == bkey_type_tag(b),
    ensures
        a == b,
{
}

pub proof fn lemma_bkey_type_tag_bound(a: BkeyType)
    ensures
        bkey_type_tag(a) < KEY_TYPE_MAX,
{
}

/// The header of a stored key.
#[derive(Clone, Copy, Debug, PartialEq, Eq, Structural)]
pub struct Bkey {
    /// Length of key and value, in 64-bit words.
    pub u64s: u8,
    /// Packing format of the key.
    pub format: u8,
    /// Type tag of the value.
    pub type_: u8,
    /// Position of the key.
    pub p: Bpos,
    /// Size of the extent that the key describes, in sectors.
    pub size: u32,
}

/// A key with its value, as stored.
#[derive(Clone, Debug)]
pub struct BkeyI {
    pub k: Bkey,
    pub v: Vec<u8>,
}

/// A key and its value, borrowed from the store.
pub struct BkeySC<'a> {
    pub k: &'a Bkey,
    pub v: &'a [u8],
}

/// The value of a key, seen as its type: each variant borrows the value bytes.
#[allow(non_camel_case_types)]
pub enum BkeyValC<'a> {
    deleted,
    whiteout,
    error,
    cookie(&'a [u8]),
    hash_whiteout(&'a [u8]),
    btree_ptr(&'a [u8]),
    extent(&'a [u8]),
    reservation(&'a [u8]),
    inode(&'a [u8]),
    inode_generation(&'a [u8]),
    dirent(&'a [u8]),
    xattr(&'a [u8]),
    alloc_v1(&'a [u8]),
    quota(&'a [u8]),
    stripe(&'a [u8]),
    reflink_p(&'a [u8]),
    reflink_v(&'a [u8]),
    inline_data(&'a [u8]),
    btree_ptr_v2(&'a [u8]),
    indirect_inline_data(&'a [u8]),
    alloc_v2(&'a [u8]),
    subvolume(&'a [u8]),
    snapshot(&'a [u8]),
    inode_v2(&'a [u8]),
    alloc_v3(&'a [u8]),
    set,
    lru(&'a [u8]),
    alloc_v4(&'a [u8]),
    backpointer(&'a [u8]),
    inode_v3(&'a [u8]),
    bucket_gens(&'a [u8]),
    snapshot_tree(&'a [u8]),
    logged_op_truncate(&'a [u8]),
    logged_op_finsert(&'a [u8]),
}

/// The type tag that a typed value stands for.
pub open spec fn val_tag(v: BkeyValC) -> u8 {
    match v {
        BkeyValC::deleted => 0,
        BkeyValC::whiteout => 1,
        BkeyValC::error => 2,
        BkeyValC::cookie(_) => 3,
        BkeyValC::hash_whiteout(_) => 4,
        BkeyValC::btree_ptr(_) => 5,
        BkeyValC::extent(_) => 6,
        BkeyValC::reservation(_) => 7,
        BkeyValC::inode(_) => 8,
        BkeyValC::inode_generation(_) => 9,
        BkeyValC::dirent(_) => 10,
        BkeyValC::xattr(_) => 11,
        BkeyValC::alloc_v1(_) => 12,
        BkeyValC::quota(_) => 13,
        BkeyValC::stripe(_) => 14,
        BkeyValC::reflink_p(_) => 15,
        BkeyValC::reflink_v(_) => 16,
        BkeyValC::inline_data(_) => 17,
        BkeyValC::btree_ptr_v2(_) => 18,
        BkeyValC::indirect_inline_data(_) => 19,
        BkeyValC::alloc_v2(_) => 20,
        BkeyValC::subvolume(_) => 21,
        BkeyValC::snapshot(_) => 22,
        BkeyValC::inode_v2(_) => 23,
        BkeyValC::alloc_v3(_) => 24,
        BkeyValC::set => 25,
        BkeyValC::lru(_) => 26,
        BkeyValC::alloc_v4(_) => 27,
        BkeyValC::backpointer(_) => 28,
        BkeyValC::inode_v3(_) => 29,
        BkeyValC::bucket_gens(_) => 30,
        BkeyValC::snapshot_tree(_) => 31,
        BkeyValC::logged_op_truncate(_) => 32,
        BkeyValC::logged_op_finsert(_) => 33,
    }
}

/// The bytes that a typed value borrows, if its type has any.
pub open spec fn val_payload(v: BkeyValC) -> Option<Seq<u8>> {
    match v {
        BkeyValC::deleted => None,
        BkeyValC::whiteout => None,
        BkeyValC::error => None,
        BkeyValC::cookie(b) => Some(b@),
        BkeyValC::hash_whiteout(b) => Some(b@),
        BkeyValC::btree_ptr(b) => Some(b@),
        BkeyValC::extent(b) => Some(b@),
        BkeyValC::reservation(b) => Some(b@),
        BkeyValC::inode(b) => Some(b@),
        BkeyValC::inode_generation(b) => Some(b@),
        BkeyValC::dirent(b) => Some(b@),
        BkeyValC::xattr(b) => Some(b@),
        BkeyValC::alloc_v1(b) => Some(b@),
        BkeyValC::quota(b) => Some(b@),
        BkeyValC::stripe(b) => Some(b@),
        BkeyValC::reflink_p(b) => Some(b@),
        BkeyValC::reflink_v(b) => Some(b@),
        BkeyValC::inline_data(b) => Some(b@),
        BkeyValC::btree_ptr_v2(b) => Some(b@),
        BkeyValC::indirect_inline_data(b) => Some(b@),
        BkeyValC::alloc_v2(b) => Some(b@),
        BkeyValC::subvolume(b) => Some(b@),
        BkeyValC::snapshot(b) => Some(b@),
        BkeyValC::inode_v2(b) => Some(b@),
        BkeyValC::alloc_v3(b) => Some(b@),
        BkeyValC::set => None,
        BkeyValC::lru(b) => Some(b@),
        BkeyValC::alloc_v4(b) => Some(b@),
        BkeyValC::backpointer(b) => Some(b@),
        BkeyValC::inode_v3(b) => Some(b@),
        BkeyValC::bucket_gens(b) => Some(b@),
        BkeyValC::snapshot_tree(b) => Some(b@),
        BkeyValC::logged_op_truncate(b) => Some(b@),
        BkeyValC::logged_op_finsert(b) => Some(b@),
    }
}

/// Key types that carry no value.
pub open spec fn tag_has_no_payload(tag: u8) -> bool {
    tag == 0 || tag == 1 || tag == 2 || tag == 25
}

impl<'a> BkeySC<'a> {
    /// The key and value as text, through `fs`.
    pub fn to_text<'b>(&'a self, fs: &'b Fs) -> (r: BkeySCToText<'a, 'b>)
        ensures
            r.k == self,
    {
        BkeySCToText { k: self, fs }
    }

    /// Views a stored key and its value.
    pub fn from(k: &'a BkeyI) -> (r: BkeySC<'a>)
        ensures
            *r.k == k.k,
            r.v@ == k.v@,
    {
        BkeySC { k: &k.k, v: k.v.as_slice() }
    }

    /// The value, seen as the type that the key's tag selects; the bytes are
    /// borrowed, not copied.  A tag outside the known set is corrupt data.
    pub fn v(&self) -> (r: Result<BkeyValC<'a>, BchErrcode>)
        ensures
            r is Ok <==> self.k.type_ < KEY_TYPE_MAX,
            r is Err ==> r == Err::<BkeyValC<'a>, BchErrcode>(BchErrcode::CorruptData),
            r matches Ok(v) ==> val_tag(v) == self.k.type_ && val_payload(v) == (
            if tag_has_no_payload(self.k.type_) {
                None
            } else {
                Some(self.v@)
            }),
    {
        let v = self.v;
        match self.k.type_ {
            0 => Ok(BkeyValC::deleted),
            1 => Ok(BkeyValC::whiteout),
            2 => Ok(BkeyValC::error),
            3 => Ok(BkeyValC::cookie(v)),
            4 => Ok(BkeyValC::hash_whiteout(v)),
            5 => Ok(BkeyValC::btree_ptr(v)),
            6 => Ok(BkeyValC::extent(v)),
            7 => Ok(BkeyValC::reservation(v)),
            8 => Ok(BkeyValC::inode(v)),
            9 => Ok(BkeyValC::inode_generation(v)),
            10 => Ok(BkeyValC::dirent(v)),
            11 => Ok(BkeyValC::xattr(v)),
            12 => Ok(BkeyValC::alloc_v1(v)),
            13 => Ok(BkeyValC::quota(v)),
            14 => Ok(BkeyValC::stripe(v)),
            15 => Ok(BkeyValC::reflink_p(v)),
            16 => Ok(BkeyValC::reflink_v(v)),
            17 => Ok(BkeyValC::inline_data(v)),
            18 => Ok(BkeyValC::btree_ptr_v2(v)),
            19 => Ok(BkeyValC::indirect_inline_data(v)),
            20 => Ok(BkeyValC::alloc_v2(v)),
            21 => Ok(BkeyValC::subvolume(v)),
            22 => Ok(BkeyValC::snapshot(v)),
            23 => Ok(BkeyValC::inode_v2(v)),
            24 => Ok(BkeyValC::alloc_v3(v)),
            25 => Ok(BkeyValC::set),
            26 => Ok(BkeyValC::lru(v)),
            27 => Ok(BkeyValC::alloc_v4(v)),
            28 => Ok(BkeyValC::backpointer(v)),
            29 => Ok(BkeyValC::inode_v3(v)),
            30 => Ok(BkeyValC::bucket_gens(v)),
            31 => Ok(BkeyValC::snapshot_tree(v)),
            32 => Ok(BkeyValC::logged_op_truncate(v)),
            33 => Ok(BkeyValC::logged_op_finsert(v)),
            _ => Err(BchErrcode::CorruptData),
        }
    }
}

/// The key type whose tag is `tag`.
pub open spec fn bkey_type_of_tag(tag: u8) -> BkeyType {
    choose|t: BkeyType| bkey_type_tag(t) == tag
}

/// The name of the key type with tag `tag`, or a note that the tag is unknown.
pub open spec fn bkey_type_text(tag: u8) -> Seq<char> {
    if tag < KEY_TYPE_MAX {
        bkey_type_name_spec(bkey_type_of_tag(tag))
    } else {
        "(unknown type "@ + dec(tag as nat) + ")"@
    }
}

/// The text of a key header.
pub open spec fn bkey_text(k: Bkey) -> Seq<char> {
    "u64s "@ + dec(k.u64s as nat) + " type "@ + bkey_type_text(k.type_) + " "@ + bpos_text(k.p)
        + " len "@ + dec(k.size as nat)
}

/// The text of a key and its value.
pub open spec fn bkey_val_text(k: Bkey, v: Seq<u8>) -> Seq<char> {
    bkey_text(k) + ": "@ + hex(v)
}

/// Appends the name of the key type with tag `tag` to `out`.
pub fn bkey_type_to_text(out: &mut Printbuf, tag: u8)
    ensures
        final(out)@ == old(out)@ + bkey_type_text(tag),
{
    match BkeyType::from_tag(tag) {
        Some(t) => {
            proof {
                let c = choose|c: BkeyType| bkey_type_tag(c) == tag;
                lemma_bkey_type_tag_injective(c, t);
            }
            out.push_str(t.name());
        },
        None => {
            out.push_str("(unknown type ");
            out.push_u64(tag as u64);
            out.push_str(")");
            assert(final(out)@ =~= old(out)@ + bkey_type_text(tag));
        },
    }
}

/// Appends the text of a key header to `out`.
pub fn bkey_to_text(out: &mut Printbuf, k: &Bkey)
    ensures
        final(out)@ == old(out)@ + bkey_text(*k),
{
    out.push_str("u64s ");
    out.push_u64(k.u64s as u64);
    out.push_str(" type ");
    bkey_type_to_text(out, k.type_);
    out.push_str(" ");
    out.push_bpos(&k.p);
    out.push_str(" len ");
    out.push_u64(k.size as u64);
    assert(final(out)@ =~= old(out)@ + bkey_text(*k));
}

/// A key and value to be rendered as text.
pub struct BkeySCToText<'a, 'b> {
    pub k: &'a BkeySC<'a>,
    pub fs: &'b Fs,
}

impl<'a, 'b> BkeySCToText<'a, 'b> {
    /// The text of the key and its value.
    pub fn to_string(&self) -> (r: String)
        ensures
            r@ == bkey_val_text(*self.k.k, self.k.v@),
    {
        let mut buf = Printbuf::new();
        bkey_to_text(&mut buf, self.k.k);
        buf.push_str(": ");
        buf.push_hex(self.k.v);
        assert(buf@ =~= bkey_val_text(*self.k.k, self.k.v@));
        buf.into_string()
    }
}

impl core::str::FromStr for BkeyType {
    type Err = BchToolsErr;

    fn from_str(s: &str) -> Result<BkeyType, BchToolsErr> {
        BkeyType::from_str(s)
    }
}

} // verus!
