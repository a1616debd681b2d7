use bcachefs::bkey::{Bkey, BkeyI};
use bcachefs::bpos::{pos, spos, spos_max, Bpos};
use bcachefs::btree::{
    BtreeIter, BtreeIterFlags, BtreeNodeIter, BtreeTrans, Fs, BTREE_ITER_ALL_SNAPSHOTS,
    BTREE_ITER_PREFETCH, BTREE_ITER_SLOTS, BTREE_ITER_KEY_CACHE_FILL,
};
use bcachefs::btree_id::BtreeId;
use bcachefs::errcode::{errptr_to_result, BchErrcode, BCH_ERR_TRANSACTION_RESTART};

fn key_at(p: Bpos, tag: u8, v: Vec<u8>) -> BkeyI {
    BkeyI { k: Bkey { u64s: 5, format: 0, type_: tag, p, size: 0 }, v }
}

fn fs_with(btree: BtreeId, ps: &[Bpos]) -> Fs {
    let mut fs = Fs::new();
    for (i, p) in ps.iter().enumerate() {
        fs.insert(btree, key_at(*p, 6, vec![i as u8])).unwrap();
    }
    fs
}

fn all_snapshots() -> BtreeIterFlags {
    BtreeIterFlags::from_bits(BTREE_ITER_ALL_SNAPSHOTS | BTREE_ITER_PREFETCH).unwrap()
}

fn scan(iter: &mut BtreeIter, end: Bpos) -> Vec<Bpos> {
    let mut out = Vec::new();
    while let Some(k) = iter.peek_and_restart().unwrap() {
        if k.k.p > end {
            break;
        }
        out.push(k.k.p);
        iter.advance();
    }
    out
}

#[test]
fn flags_reject_unknown_bits() {
    assert!(BtreeIterFlags::from_bits(0x8000).is_none());
    assert!(BtreeIterFlags::from_bits(0xffff).is_none());
    let f = BtreeIterFlags::from_bits(BTREE_ITER_SLOTS | BTREE_ITER_KEY_CACHE_FILL).unwrap();
    assert_eq!(f.bits(), 0x4001);
    assert!(f.contains(BTREE_ITER_SLOTS));
    assert!(!f.contains(BTREE_ITER_PREFETCH));
    let g = f.union(BtreeIterFlags::from_bits(BTREE_ITER_PREFETCH).unwrap());
    assert_eq!(g.bits(), 0x4005);
    assert_eq!(BtreeIterFlags::empty().bits(), 0);
}

#[test]
fn insert_keeps_order_and_replaces_equal_positions() {
    let mut fs = Fs::new();
    fs.insert(BtreeId::Inodes, key_at(pos(0, 5), 8, vec![1])).unwrap();
    fs.insert(BtreeId::Inodes, key_at(pos(0, 1), 8, vec![2])).unwrap();
    fs.insert(BtreeId::Inodes, key_at(pos(0, 5), 8, vec![3])).unwrap();
    let trans = BtreeTrans::new(&fs);
    let mut iter = BtreeIter::new(&trans, BtreeId::Inodes, pos(0, 0), all_snapshots());
    let k = iter.peek().unwrap().unwrap();
    assert_eq!(k.k.p, pos(0, 1));
    assert_eq!(k.v, &[2][..]);
    iter.advance();
    let k = iter.peek().unwrap().unwrap();
    assert_eq!(k.k.p, pos(0, 5));
    assert_eq!(k.v, &[3][..]);
    iter.advance();
    assert!(iter.peek().unwrap().is_none());
}

#[test]
fn insert_refuses_unknown_tags() {
    let mut fs = Fs::new();
    assert_eq!(fs.insert(BtreeId::Extents, key_at(pos(0, 1), 34, vec![])), Err(BchErrcode::CorruptData));
    let trans = BtreeTrans::new(&fs);
    let mut iter = BtreeIter::new(&trans, BtreeId::Extents, pos(0, 0), all_snapshots());
    assert!(iter.peek().unwrap().is_none());
}

#[test]
fn scan_yields_snapshots_in_order_then_none() {
    let fs = fs_with(BtreeId::Extents, &[spos(0, 50, 1), spos(0, 10, 0), spos(0, 50, 0)]);
    let trans = BtreeTrans::new(&fs);
    let mut iter = BtreeIter::new(&trans, BtreeId::Extents, pos(0, 0), all_snapshots());
    let mut seen = Vec::new();
    loop {
        match iter.peek_upto(pos(0, 100)).unwrap() {
            Some(k) => {
                seen.push(k.k.p);
                iter.advance();
            }
            None => break,
        }
    }
    assert_eq!(seen, vec![spos(0, 10, 0), spos(0, 50, 0), spos(0, 50, 1)]);
    assert!(iter.peek_upto(pos(0, 100)).unwrap().is_none());
}

#[test]
fn scan_is_ordered_and_within_bounds() {
    let ps = [pos(3, 3), pos(1, 1), pos(2, 2), spos(2, 2, 7), pos(9, 0), pos(0, 4)];
    let fs = fs_with(BtreeId::Dirents, &ps);
    let trans = BtreeTrans::new(&fs);
    let mut iter = BtreeIter::new(&trans, BtreeId::Dirents, pos(1, 0), all_snapshots());
    let got = scan(&mut iter, pos(3, 3));
    assert_eq!(got, vec![pos(1, 1), pos(2, 2), spos(2, 2, 7), pos(3, 3)]);
    for w in got.windows(2) {
        assert!(w[0] < w[1]);
    }
}

#[test]
fn without_all_snapshots_only_the_start_snapshot_is_seen() {
    let fs = fs_with(BtreeId::Extents, &[spos(0, 10, 0), spos(0, 50, 0), spos(0, 50, 1)]);
    let trans = BtreeTrans::new(&fs);
    let flags = BtreeIterFlags::from_bits(BTREE_ITER_PREFETCH).unwrap();
    let mut iter = BtreeIter::new(&trans, BtreeId::Extents, spos(0, 0, 1), flags);
    assert_eq!(scan(&mut iter, spos_max()), vec![spos(0, 50, 1)]);
}

#[test]
fn peek_twice_gives_the_same_key() {
    let fs = fs_with(BtreeId::Xattrs, &[pos(1, 1), pos(1, 2)]);
    let trans = BtreeTrans::new(&fs);
    let mut iter = BtreeIter::new(&trans, BtreeId::Xattrs, pos(0, 0), all_snapshots());
    let a = iter.peek().unwrap().unwrap().k.p;
    let b = iter.peek().unwrap().unwrap().k.p;
    assert_eq!(a, b);
    let c = iter.peek_upto(pos(1, 1)).unwrap().unwrap().k.p;
    let d = iter.peek_upto(pos(1, 1)).unwrap().unwrap().k.p;
    assert_eq!(c, pos(1, 1));
    assert_eq!(c, d);
}

#[test]
fn peek_upto_stops_before_the_bound() {
    let fs = fs_with(BtreeId::Xattrs, &[pos(1, 5)]);
    let trans = BtreeTrans::new(&fs);
    let mut iter = BtreeIter::new(&trans, BtreeId::Xattrs, pos(0, 0), all_snapshots());
    assert!(iter.peek_upto(pos(1, 4)).unwrap().is_none());
    assert_eq!(iter.peek_upto(pos(1, 5)).unwrap().unwrap().k.p, pos(1, 5));
}

#[test]
fn restart_is_reported_by_peek_and_absorbed_by_peek_and_restart() {
    let fs = fs_with(BtreeId::Extents, &[pos(0, 1), pos(0, 2), pos(0, 3)]);
    let trans = BtreeTrans::new(&fs);
    let mut iter = BtreeIter::new(&trans, BtreeId::Extents, pos(0, 0), all_snapshots());
    assert_eq!(iter.peek().unwrap().unwrap().k.p, pos(0, 1));
    iter.inject_restart();
    assert!(matches!(iter.peek(), Err(BchErrcode::WouldRestartTransaction)));
    assert!(matches!(iter.peek_upto(pos(0, 9)), Err(BchErrcode::WouldRestartTransaction)));
    assert_eq!(iter.peek_and_restart().unwrap().unwrap().k.p, pos(0, 1));
    assert_eq!(iter.peek().unwrap().unwrap().k.p, pos(0, 1));
}

#[test]
fn restarts_change_nothing_in_a_scan() {
    let ps = [pos(0, 1), pos(0, 2), spos(0, 2, 5), pos(4, 0), pos(7, 7)];
    let fs = fs_with(BtreeId::Extents, &ps);
    let trans = BtreeTrans::new(&fs);
    let mut plain = BtreeIter::new(&trans, BtreeId::Extents, pos(0, 0), all_snapshots());
    let expected = scan(&mut plain, spos_max());
    let mut iter = BtreeIter::new(&trans, BtreeId::Extents, pos(0, 0), all_snapshots());
    let mut got = Vec::new();
    let mut n = 0;
    loop {
        if n % 2 == 0 {
            iter.inject_restart();
        }
        n += 1;
        match iter.peek_and_restart().unwrap() {
            Some(k) => got.push(k.k.p),
            None => break,
        }
        if n % 3 == 0 {
            iter.inject_restart();
        }
        iter.advance();
    }
    assert_eq!(got, expected);
    assert_eq!(got.len(), ps.len());
}

#[test]
fn scan_reaches_the_largest_position_and_stops() {
    let fs = fs_with(BtreeId::Lru, &[pos(1, 0), spos_max()]);
    let trans = BtreeTrans::new(&fs);
    let mut iter = BtreeIter::new(&trans, BtreeId::Lru, pos(0, 0), all_snapshots());
    assert_eq!(scan(&mut iter, spos_max()), vec![pos(1, 0), spos_max()]);
    iter.advance();
    assert!(iter.peek().unwrap().is_none());
}

#[test]
fn empty_btree_gives_nothing() {
    let fs = Fs::new();
    let trans = BtreeTrans::new(&fs);
    let mut iter = BtreeIter::new(&trans, BtreeId::Quotas, pos(0, 0), all_snapshots());
    assert!(iter.peek().unwrap().is_none());
    assert!(iter.peek_and_restart().unwrap().is_none());
}

#[test]
fn raw_engine_results_map_to_errors() {
    assert_eq!(errptr_to_result(0), Err(BchErrcode::NotFound));
    assert_eq!(errptr_to_result(-BCH_ERR_TRANSACTION_RESTART), Err(BchErrcode::WouldRestartTransaction));
    assert_eq!(errptr_to_result(-5), Err(BchErrcode::Fatal(5)));
    assert_eq!(errptr_to_result(-4095), Err(BchErrcode::Fatal(4095)));
    assert_eq!(errptr_to_result(7), Ok(7));
    assert_eq!(errptr_to_result(-4096), Ok((-4096i64) as u64));
}

#[test]
fn empty_btree_has_one_node_covering_everything() {
    let fs = Fs::new();
    let trans = BtreeTrans::new(&fs);
    let mut iter = BtreeNodeIter::new(&trans, BtreeId::Extents, pos(0, 0), 0, 0, BtreeIterFlags::empty());
    let b = iter.peek().unwrap().unwrap();
    assert_eq!(b.level, 0);
    assert_eq!(b.min_key, pos(0, 0));
    assert_eq!(b.max_key, spos_max());
    assert_eq!(b.nr_keys, 0);
    assert_eq!(b.key.k.p, spos_max());
    iter.advance();
    assert!(iter.peek().unwrap().is_none());
}

#[test]
fn leaf_nodes_hold_sixteen_keys() {
    let ps: Vec<Bpos> = (0..40u64).map(|i| pos(1, i)).collect();
    let fs = fs_with(BtreeId::Extents, &ps);
    let trans = BtreeTrans::new(&fs);
    let mut iter = BtreeNodeIter::new(&trans, BtreeId::Extents, pos(0, 0), 0, 0, BtreeIterFlags::empty());
    let mut nodes = Vec::new();
    while let Some(b) = iter.next().unwrap() {
        nodes.push((b.min_key, b.max_key, b.nr_keys));
    }
    assert_eq!(
        nodes,
        vec![
            (pos(0, 0), pos(1, 15), 16),
            (spos(1, 15, 1), pos(1, 31), 16),
            (spos(1, 31, 1), spos_max(), 8),
        ]
    );
}

#[test]
fn node_cursor_starts_at_the_node_covering_its_position() {
    let ps: Vec<Bpos> = (0..40u64).map(|i| pos(1, i)).collect();
    let fs = fs_with(BtreeId::Extents, &ps);
    let trans = BtreeTrans::new(&fs);
    let mut iter = BtreeNodeIter::new(&trans, BtreeId::Extents, pos(1, 20), 0, 0, BtreeIterFlags::empty());
    assert_eq!(iter.peek().unwrap().unwrap().max_key, pos(1, 31));
    let mut up = BtreeNodeIter::new(&trans, BtreeId::Extents, pos(0, 0), 0, 1, BtreeIterFlags::empty());
    let root = up.peek().unwrap().unwrap();
    assert_eq!(root.level, 1);
    assert_eq!(root.nr_keys, 40);
    assert_eq!(root.max_key, spos_max());
}

#[test]
fn no_nodes_beyond_the_deepest_level() {
    let fs = fs_with(BtreeId::Extents, &[pos(1, 1)]);
    let trans = BtreeTrans::new(&fs);
    let mut iter = BtreeNodeIter::new(&trans, BtreeId::Extents, pos(0, 0), 0, 4, BtreeIterFlags::empty());
    assert!(iter.peek().unwrap().is_none());
    assert!(iter.next().unwrap().is_none());
}

#[test]
fn node_cursor_restarts() {
    let fs = fs_with(BtreeId::Extents, &[pos(1, 1)]);
    let trans = BtreeTrans::new(&fs);
    let mut iter = BtreeNodeIter::new(&trans, BtreeId::Extents, pos(0, 0), 0, 0, BtreeIterFlags::empty());
    iter.inject_restart();
    assert!(matches!(iter.peek(), Err(BchErrcode::WouldRestartTransaction)));
    assert!(matches!(iter.next(), Err(BchErrcode::WouldRestartTransaction)));
    let b = iter.peek_and_restart().unwrap().unwrap();
    assert_eq!(b.max_key, spos_max());
    assert_eq!(iter.next().unwrap().unwrap().max_key, spos_max());
    assert!(iter.next().unwrap().is_none());
}
