use bcachefs::bkey::{Bkey, BkeyI, BkeyType};
use bcachefs::bpos::{pos, pos_min, spos, spos_max, Bpos};
use bcachefs::btree::Fs;
use bcachefs::btree_id::BtreeId;
use bcachefs::list::{
    list_btree, list_btree_formats, list_btree_nodes, list_keys, list_nodes_ondisk, ListMode,
    ListOpts,
};

fn fs_with(btree: BtreeId, keys: &[(Bpos, u8)]) -> Fs {
    let mut fs = Fs::new();
    for (p, tag) in keys {
        let k = BkeyI { k: Bkey { u64s: 5, format: 0, type_: *tag, p: *p, size: 0 }, v: vec![] };
        fs.insert(btree, k).unwrap();
    }
    fs
}

fn opts(mode: ListMode, start: Bpos, end: Bpos) -> ListOpts {
    ListOpts { btree: BtreeId::Extents, bkey_type: None, level: 0, start, end, mode }
}

#[test]
fn list_keys_of_three_snapshots() {
    let fs = fs_with(BtreeId::Extents, &[(spos(0, 50, 1), 6), (spos(0, 10, 0), 6), (spos(0, 50, 0), 6)]);
    let lines = list_keys(&fs, &opts(ListMode::Keys, pos(0, 0), pos(0, 100))).unwrap();
    assert_eq!(
        lines,
        vec![
            "u64s 5 type extent 0:10 len 0: ",
            "u64s 5 type extent 0:50 len 0: ",
            "u64s 5 type extent 0:50:1 len 0: ",
        ]
    );
}

#[test]
fn list_keys_respects_bounds_and_type() {
    let fs = fs_with(
        BtreeId::Extents,
        &[(pos(1, 1), 6), (pos(2, 2), 7), (pos(3, 3), 6), (pos(4, 4), 6)],
    );
    let lines = list_keys(&fs, &opts(ListMode::Keys, pos(2, 0), pos(3, 3))).unwrap();
    assert_eq!(
        lines,
        vec!["u64s 5 type reservation 2:2 len 0: ", "u64s 5 type extent 3:3 len 0: "]
    );
    let mut o = opts(ListMode::Keys, pos_min(), spos_max());
    o.bkey_type = Some(BkeyType::Reservation);
    assert_eq!(list_keys(&fs, &o).unwrap(), vec!["u64s 5 type reservation 2:2 len 0: "]);
    let empty = list_keys(&fs, &opts(ListMode::Keys, pos(5, 0), spos_max())).unwrap();
    assert!(empty.is_empty());
}

#[test]
fn list_node_formats() {
    let keys: Vec<(Bpos, u8)> = (0..20u64).map(|i| (pos(1, i), 6)).collect();
    let fs = fs_with(BtreeId::Extents, &keys);
    let lines = list_btree_formats(&fs, &opts(ListMode::Formats, pos_min(), spos_max())).unwrap();
    assert_eq!(
        lines,
        vec![
            "l 0 0:0 - 1:15 keys 16",
            "l 0 1:15:1 - 18446744073709551615:18446744073709551615:4294967295 keys 4",
        ]
    );
    let bounded = list_btree_formats(&fs, &opts(ListMode::Formats, pos_min(), pos(2, 0))).unwrap();
    assert_eq!(bounded, vec!["l 0 0:0 - 1:15 keys 16"]);
}

#[test]
fn list_node_keys_and_stored_form() {
    let keys: Vec<(Bpos, u8)> = (0..20u64).map(|i| (pos(1, i), 6)).collect();
    let fs = fs_with(BtreeId::Extents, &keys);
    let nodes = list_btree_nodes(&fs, &opts(ListMode::Nodes, pos_min(), pos(1, 15))).unwrap();
    assert_eq!(nodes, vec!["u64s 5 type btree_ptr_v2 1:15 len 0: "]);
    let ondisk = list_nodes_ondisk(&fs, &opts(ListMode::NodesOndisk, pos(1, 16), spos_max())).unwrap();
    assert_eq!(
        ondisk,
        vec!["btree node level 0 min 1:15:1 max 18446744073709551615:18446744073709551615:4294967295 nr_keys 4"]
    );
}

#[test]
fn list_dispatches_on_mode() {
    let fs = fs_with(BtreeId::Extents, &[(pos(1, 1), 6)]);
    let keys = list_btree(&fs, &opts(ListMode::Keys, pos_min(), spos_max())).unwrap();
    assert_eq!(keys, vec!["u64s 5 type extent 1:1 len 0: "]);
    let nodes = list_btree(&fs, &opts(ListMode::Formats, pos_min(), spos_max())).unwrap();
    assert_eq!(
        nodes,
        vec!["l 0 0:0 - 18446744073709551615:18446744073709551615:4294967295 keys 1"]
    );
    let mut deep = opts(ListMode::Nodes, pos_min(), spos_max());
    deep.level = 9;
    assert!(list_btree(&fs, &deep).unwrap().is_empty());
}
