use bcachefs::bpos::{
    bpos_cmp, bpos_from_str, bpos_less, bpos_successor, bpos_to_text, pos, pos_max, pos_min, spos,
    spos_max, Bpos,
};
use bcachefs::errcode::BchToolsErr;
use std::cmp::Ordering;

#[test]
fn spos_and_pos_build_positions() {
    let p = spos(5, 10, 2);
    assert_eq!(p, Bpos { inode: 5, offset: 10, snapshot: 2 });
    assert_eq!(pos(5, 10), Bpos { inode: 5, offset: 10, snapshot: 0 });
}

#[test]
fn sentinels() {
    assert_eq!(pos_min(), spos(0, 0, 0));
    assert_eq!(pos_max(), spos(u64::MAX, u64::MAX, 0));
    assert_eq!(spos_max(), spos(u64::MAX, u64::MAX, u32::MAX));
    assert_ne!(pos_max(), spos_max());
}

#[test]
fn order_is_inode_then_offset_then_snapshot() {
    assert_eq!(bpos_cmp(&spos(1, 0, 0), &spos(0, 9, 9)), Ordering::Greater);
    assert_eq!(bpos_cmp(&spos(1, 2, 0), &spos(1, 3, 0)), Ordering::Less);
    assert_eq!(bpos_cmp(&spos(1, 2, 3), &spos(1, 2, 4)), Ordering::Less);
    assert_eq!(bpos_cmp(&spos(1, 2, 3), &spos(1, 2, 3)), Ordering::Equal);
    assert!(bpos_less(&spos(0, 10, 0), &spos(0, 50, 0)));
    assert!(bpos_less(&spos(0, 50, 0), &spos(0, 50, 1)));
    assert!(!bpos_less(&spos(0, 50, 1), &spos(0, 50, 1)));
    assert!(bpos_less(&pos_max(), &spos_max()));
}

#[test]
fn derived_order_agrees() {
    let mut v = vec![spos(0, 50, 1), spos(0, 10, 0), spos(0, 50, 0), spos(1, 0, 0)];
    v.sort();
    assert_eq!(v, vec![spos(0, 10, 0), spos(0, 50, 0), spos(0, 50, 1), spos(1, 0, 0)]);
}

#[test]
fn successor_counts_snapshots_then_carries() {
    assert_eq!(bpos_successor(spos(1, 2, 3)), spos(1, 2, 4));
    assert_eq!(bpos_successor(spos(1, 2, u32::MAX)), spos(1, 3, 0));
    assert_eq!(bpos_successor(spos(1, u64::MAX, u32::MAX)), spos(2, 0, 0));
}

#[test]
fn parse_full_and_short_forms() {
    assert_eq!(bpos_from_str("5:10:2"), Ok(spos(5, 10, 2)));
    assert_eq!(bpos_from_str("5:10"), Ok(spos(5, 10, 0)));
    assert_eq!("5:10:2".parse::<Bpos>(), Ok(spos(5, 10, 2)));
}

#[test]
fn parse_rejects_malformed_text() {
    assert_eq!(bpos_from_str("abc"), Err(BchToolsErr::InvalidBpos));
    assert_eq!(bpos_from_str(""), Err(BchToolsErr::InvalidBpos));
    assert_eq!(bpos_from_str("5"), Err(BchToolsErr::InvalidBpos));
    assert_eq!(bpos_from_str("1:2:3:4"), Err(BchToolsErr::InvalidBpos));
    assert_eq!(bpos_from_str("1:x"), Err(BchToolsErr::InvalidBpos));
    assert_eq!(bpos_from_str("1:2:x"), Err(BchToolsErr::InvalidBpos));
    assert_eq!(bpos_from_str("1::2"), Err(BchToolsErr::InvalidBpos));
    assert_eq!(bpos_from_str("-1:2"), Err(BchToolsErr::InvalidBpos));
    assert_eq!(bpos_from_str("18446744073709551616:0"), Err(BchToolsErr::InvalidBpos));
    assert_eq!(bpos_from_str("1:2:4294967296"), Err(BchToolsErr::InvalidBpos));
}

#[test]
fn parse_largest_values() {
    assert_eq!(
        bpos_from_str("18446744073709551615:18446744073709551615:4294967295"),
        Ok(spos_max())
    );
}

#[test]
fn parse_sentinel_names() {
    assert_eq!(bpos_from_str("POS_MIN"), Ok(pos_min()));
    assert_eq!(bpos_from_str("POS_MAX"), Ok(pos_max()));
    assert_eq!(bpos_from_str("SPOS_MAX"), Ok(spos_max()));
    assert_eq!(bpos_from_str("pos_min"), Err(BchToolsErr::InvalidBpos));
    assert_eq!(bpos_from_str("POS_MIN "), Err(BchToolsErr::InvalidBpos));
}

#[test]
fn format_positions() {
    assert_eq!(bpos_to_text(&pos_min()), "0:0");
    assert_eq!(bpos_to_text(&spos(5, 10, 2)), "5:10:2");
    assert_eq!(bpos_to_text(&spos(5, 10, 0)), "5:10");
    assert_ne!(bpos_to_text(&pos_max()), "SPOS_MAX");
    assert_eq!(
        bpos_to_text(&pos_max()),
        "18446744073709551615:18446744073709551615"
    );
    assert_eq!(
        bpos_to_text(&spos_max()),
        "18446744073709551615:18446744073709551615:4294967295"
    );
}

#[test]
fn format_then_parse_round_trips() {
    let samples = [
        pos_min(),
        pos_max(),
        spos_max(),
        spos(5, 10, 2),
        spos(0, 0, 1),
        spos(123456789, 0, 0),
        spos(u64::MAX, 7, 9),
    ];
    for p in samples {
        assert_eq!(bpos_from_str(&bpos_to_text(&p)), Ok(p));
    }
}

#[test]
fn error_messages() {
    assert_eq!(BchToolsErr::InvalidBpos.message(), "invalid bpos");
    assert_eq!(BchToolsErr::InvalidBtreeId.message(), "invalid btree id");
    assert_eq!(BchToolsErr::InvalidBkeyType.message(), "invalid bkey type");
}
