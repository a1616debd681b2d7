use bcachefs::bkey::{Bkey, BkeyI, BkeySC, BkeyType, BkeyValC, KEY_TYPE_MAX};
use bcachefs::bpos::spos;
use bcachefs::btree::Fs;
use bcachefs::errcode::{BchErrcode, BchToolsErr};

fn key(tag: u8, v: Vec<u8>) -> BkeyI {
    BkeyI { k: Bkey { u64s: 6, format: 1, type_: tag, p: spos(1, 2, 3), size: 8 }, v }
}

fn variant_name(v: &BkeyValC) -> &'static str {
    match v {
        BkeyValC::deleted => "deleted",
        BkeyValC::whiteout => "whiteout",
        BkeyValC::error => "error",
        BkeyValC::cookie(_) => "cookie",
        BkeyValC::hash_whiteout(_) => "hash_whiteout",
        BkeyValC::btree_ptr(_) => "btree_ptr",
        BkeyValC::extent(_) => "extent",
        BkeyValC::reservation(_) => "reservation",
        BkeyValC::inode(_) => "inode",
        BkeyValC::inode_generation(_) => "inode_generation",
        BkeyValC::dirent(_) => "dirent",
        BkeyValC::xattr(_) => "xattr",
        BkeyValC::alloc_v1(_) => "alloc",
        BkeyValC::quota(_) => "quota",
        BkeyValC::stripe(_) => "stripe",
        BkeyValC::reflink_p(_) => "reflink_p",
        BkeyValC::reflink_v(_) => "reflink_v",
        BkeyValC::inline_data(_) => "inline_data",
        BkeyValC::btree_ptr_v2(_) => "btree_ptr_v2",
        BkeyValC::indirect_inline_data(_) => "indirect_inline_data",
        BkeyValC::alloc_v2(_) => "alloc_v2",
        BkeyValC::subvolume(_) => "subvolume",
        BkeyValC::snapshot(_) => "snapshot",
        BkeyValC::inode_v2(_) => "inode_v2",
        BkeyValC::alloc_v3(_) => "alloc_v3",
        BkeyValC::set => "set",
        BkeyValC::lru(_) => "lru",
        BkeyValC::alloc_v4(_) => "alloc_v4",
        BkeyValC::backpointer(_) => "backpointer",
        BkeyValC::inode_v3(_) => "inode_v3",
        BkeyValC::bucket_gens(_) => "bucket_gens",
        BkeyValC::snapshot_tree(_) => "snapshot_tree",
        BkeyValC::logged_op_truncate(_) => "logged_op_truncate",
        BkeyValC::logged_op_finsert(_) => "logged_op_finsert",
    }
}

fn payload<'a>(v: &BkeyValC<'a>) -> Option<&'a [u8]> {
    match *v {
        BkeyValC::deleted | BkeyValC::whiteout | BkeyValC::error | BkeyValC::set => None,
        BkeyValC::cookie(b)
        | BkeyValC::hash_whiteout(b)
        | BkeyValC::btree_ptr(b)
        | BkeyValC::extent(b)
        | BkeyValC::reservation(b)
        | BkeyValC::inode(b)
        | BkeyValC::inode_generation(b)
        | BkeyValC::dirent(b)
        | BkeyValC::xattr(b)
        | BkeyValC::alloc_v1(b)
        | BkeyValC::quota(b)
        | BkeyValC::stripe(b)
        | BkeyValC::reflink_p(b)
        | BkeyValC::reflink_v(b)
        | BkeyValC::inline_data(b)
        | BkeyValC::btree_ptr_v2(b)
        | BkeyValC::indirect_inline_data(b)
        | BkeyValC::alloc_v2(b)
        | BkeyValC::subvolume(b)
        | BkeyValC::snapshot(b)
        | BkeyValC::inode_v2(b)
        | BkeyValC::alloc_v3(b)
        | BkeyValC::lru(b)
        | BkeyValC::alloc_v4(b)
        | BkeyValC::backpointer(b)
        | BkeyValC::inode_v3(b)
        | BkeyValC::bucket_gens(b)
        | BkeyValC::snapshot_tree(b)
        | BkeyValC::logged_op_truncate(b)
        | BkeyValC::logged_op_finsert(b) => Some(b),
    }
}

#[test]
fn decode_gives_the_variant_of_every_defined_tag() {
    for tag in 0..KEY_TYPE_MAX {
        let stored = key(tag, vec![tag, 0xaa]);
        let k = BkeySC::from(&stored);
        let v = k.v().ok().expect("defined tag decodes");
        let t = BkeyType::from_tag(tag).unwrap();
        assert_eq!(variant_name(&v), t.name());
        assert_eq!(t.tag(), tag);
        match payload(&v) {
            Some(b) => {
                assert_eq!(b, &[tag, 0xaa][..]);
                assert_eq!(b.as_ptr(), stored.v.as_ptr());
            }
            None => assert!(matches!(tag, 0 | 1 | 2 | 25)),
        }
    }
}

#[test]
fn alloc_v3_decodes_as_alloc_v3() {
    let stored = key(24, vec![1]);
    let k = BkeySC::from(&stored);
    assert!(matches!(k.v(), Ok(BkeyValC::alloc_v3(_))));
}

#[test]
fn decode_reports_unknown_tags_as_corrupt() {
    for tag in [KEY_TYPE_MAX, 100, 255] {
        let stored = key(tag, vec![]);
        let k = BkeySC::from(&stored);
        assert!(matches!(k.v(), Err(BchErrcode::CorruptData)));
    }
}

#[test]
fn key_type_names() {
    assert_eq!(BkeyType::from_str("extent"), Ok(BkeyType::Extent));
    assert_eq!(BkeyType::from_str("set"), Ok(BkeyType::SetEntry));
    assert_eq!(BkeyType::from_str("logged_op_finsert"), Ok(BkeyType::LoggedOpFinsert));
    assert_eq!("inode_v3".parse::<BkeyType>(), Ok(BkeyType::InodeV3));
    assert_eq!(BkeyType::from_str("Extent"), Err(BchToolsErr::InvalidBkeyType));
    assert_eq!(BkeyType::from_str(""), Err(BchToolsErr::InvalidBkeyType));
    assert_eq!(BkeyType::from_tag(KEY_TYPE_MAX), None);
}

#[test]
fn key_text() {
    let fs = Fs::new();
    let stored = BkeyI {
        k: Bkey { u64s: 6, format: 1, type_: 6, p: spos(1, 2, 3), size: 8 },
        v: vec![0x01, 0xab, 0xff],
    };
    let k = BkeySC::from(&stored);
    assert_eq!(k.to_text(&fs).to_string(), "u64s 6 type extent 1:2:3 len 8: 01abff");
    let bad = BkeyI {
        k: Bkey { u64s: 5, format: 0, type_: 200, p: spos(0, 7, 0), size: 0 },
        v: vec![],
    };
    let k = BkeySC::from(&bad);
    assert_eq!(k.to_text(&fs).to_string(), "u64s 5 type (unknown type 200) 0:7 len 0: ");
}
