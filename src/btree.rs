//! The store, transactions against it, and cursors over its keys and nodes.
use vstd::prelude::*;
use crate::bkey::{Bkey, BkeyI, BkeySC, KEY_TYPE_MAX};
use crate::bpos::{
    bpos_le, bpos_less, bpos_lt, bpos_successor, bpos_text, lemma_bpos_bounds, lemma_successor,
    pos_min, spos_max, successor_spec, Bpos,
};
use crate::btree_id::{btree_id_index, lemma_btree_id_index_bound, BtreeId, BTREE_ID_NR};
use crate::errcode::{errptr_to_result, BchErrcode, BCH_ERR_TRANSACTION_RESTART};
use crate::printbuf::Printbuf;
use crate::text::dec;

verus! {

pub const BTREE_ITER_SLOTS: u16 = 0x1;

pub const BTREE_ITER_INTENT: u16 = 0x2;

pub const BTREE_ITER_PREFETCH: u16 = 0x4;

pub const BTREE_ITER_IS_EXTENTS: u16 = 0x8;

pub const BTREE_ITER_NOT_EXTENTS: u16 = 0x10;

pub const BTREE_ITER_CACHED: u16 = 0x20;

pub const BTREE_ITER_KEY_CACHED: u16 = 0x40;

pub const BTREE_ITER_WITH_UPDATES: u16 = 0x80;

pub const BTREE_ITER_WITH_JOURNAL: u16 = 0x100;

pub const BTREE_ITER_SNAPSHOT_FIELD: u16 = 0x200;

pub const BTREE_ITER_ALL_SNAPSHOTS: u16 = 0x400;

pub const BTREE_ITER_FILTER_SNAPSHOTS: u16 = 0x800;

pub const BTREE_ITER_NOPRESERVE: u16 = 0x1000;

pub const BTREE_ITER_CACHED_NOFILL: u16 = 0x2000;

pub const BTREE_ITER_KEY_CACHE_FILL: u16 = 0x4000;

/// Every flag bit that has a meaning.
pub const BTREE_ITER_ALL_FLAGS: u16 = 0x7fff;

/// A set of cursor options; holds no bit outside `BTREE_ITER_ALL_FLAGS`.
#[derive(Clone, Copy, Debug, PartialEq, Eq, Structural)]
pub struct BtreeIterFlags {
    bits: u16,
}

impl View for BtreeIterFlags {
    type V = u16;

    closed spec fn view(&self) -> u16 {
        self.bits
    }
}

impl BtreeIterFlags {
    /// The flags whose bits are `bits`; none if a bit has no meaning.
    pub fn from_bits(bits: u16) -> (r: Option<BtreeIterFlags>)
        ensures
            r is Some <==> bits & !BTREE_ITER_ALL_FLAGS == 0,
            r matches Some(f) ==> f@ == bits,
    {
        if bits & !BTREE_ITER_ALL_FLAGS == 0 {
            Some(BtreeIterFlags { bits })
        } else {
            None
        }
    }

    /// No flag set.
    pub fn empty() -> (r: BtreeIterFlags)
        ensures
            r@ == 0,
    {
        BtreeIterFlags { bits: 0 }
    }

    /// The flags of either set.
    pub fn union(self, other: BtreeIterFlags) -> (r: BtreeIterFlags)
        ensures
            r@ == self@ | other@,
    {
        BtreeIterFlags { bits: self.bits | other.bits }
    }

    /// The bits of this set.
    pub fn bits(&self) -> (r: u16)
        ensures
            r == self@,
    {
        self.bits
    }

    /// Whether every bit of `f` is set.
    pub fn contains(&self, f: u16) -> (r: bool)
        ensures
            r == (self@ & f == f),
    {
        self.bits & f == f
    }
}

/// Keys in strictly increasing position order.
pub open spec fn sorted_keys(s: Seq<BkeyI>) -> bool {
    forall|i: int, j: int| 0 <= i < j < s.len() ==> bpos_lt(s[i].k.p, s[j].k.p)
}

/// Keys whose type tags are all known.
pub open spec fn known_tags(s: Seq<BkeyI>) -> bool {
    forall|i: int| 0 <= i < s.len() ==> (#[trigger] s[i]).k.type_ < KEY_TYPE_MAX
}

/// A well-formed store: one sorted sequence of keys with known tags per btree.
pub open spec fn fs_wf(t: Seq<Seq<BkeyI>>) -> bool {
    &&& t.len() == BTREE_ID_NR
    &&& forall|b: int| 0 <= b < t.len() ==> sorted_keys(#[trigger] t[b]) && known_tags(t[b]) && t[b].len() < i64::MAX
}

/// Where `p` belongs in `t`: every key before it is smaller, every key from it on
/// is at least `p`.
pub open spec fn is_insert_index(t: Seq<BkeyI>, p: Bpos, i: int) -> bool {
    &&& 0 <= i <= t.len()
    &&& forall|j: int| 0 <= j < i ==> bpos_lt(#[trigger] t[j].k.p, p)
    &&& forall|j: int| i <= j < t.len() ==> bpos_le(p, #[trigger] t[j].k.p)
}

/// `t` with `k` put in place, replacing a key at the same position.
pub open spec fn tree_insert(t: Seq<BkeyI>, k: BkeyI) -> Seq<BkeyI> {
    let i = choose|i: int| is_insert_index(t, k.k.p, i);
    if i < t.len() && t[i].k.p == k.k.p {
        t.update(i, k)
    } else {
        t.insert(i, k)
    }
}

/// Error number reported when a btree can hold no more keys.
pub const ENOSPC: i64 = 28;

/// An in-memory filesystem: the keys of each btree.
pub struct Fs {
    btrees: Vec<Vec<BkeyI>>,
}

impl View for Fs {
    type V = Seq<Seq<BkeyI>>;

    closed spec fn view(&self) -> Seq<Seq<BkeyI>> {
        self.btrees@.map_values(|t: Vec<BkeyI>| t@)
    }
}

impl Fs {
    pub open spec fn wf(&self) -> bool {
        fs_wf(self@)
    }

    /// A filesystem whose btrees are all empty.
    pub fn new() -> (r: Fs)
        ensures
            r.wf(),
            forall|b: int| 0 <= b < BTREE_ID_NR ==> (#[trigger] r@[b]).len() == 0,
    {
        let mut btrees: Vec<Vec<BkeyI>> = Vec::new();
        let mut i: u32 = 0;
        while i < BTREE_ID_NR
            invariant
                i <= BTREE_ID_NR,
                btrees@.len() == i,
                forall|b: int| 0 <= b < i ==> (#[trigger] btrees@[b])@.len() == 0,
            decreases BTREE_ID_NR - i,
        {
            btrees.push(Vec::new());
            i += 1;
        }
        let r = Fs { btrees };
        assert(r@.len() == BTREE_ID_NR);
        r
    }

    /// Puts `k` into `btree`, replacing a key at the same position.  A key whose
    /// type tag is unknown is refused as corrupt.
    pub fn insert(&mut self, btree: BtreeId, k: BkeyI) -> (r: Result<(), BchErrcode>)
        requires
            old(self).wf(),
        ensures
            final(self).wf(),
            k.k.type_ >= KEY_TYPE_MAX ==> r == Err::<(), BchErrcode>(BchErrcode::CorruptData),
            r is Err ==> final(self)@ == old(self)@,
            r is Ok ==> final(self)@ == old(self)@.update(
                btree_id_index(btree) as int,
                tree_insert(old(self)@[btree_id_index(btree) as int], k),
            ),
            k.k.type_ < KEY_TYPE_MAX && old(self)@[btree_id_index(btree) as int].len() < i64::MAX
                - 1 ==> r is Ok,
    {
        if k.k.type_ >= KEY_TYPE_MAX {
            return Err(BchErrcode::CorruptData);
        }
        let b = btree.index() as usize;
        proof {
            lemma_btree_id_index_bound(btree);
        }
        let ghost old_view = self@;
        let ghost t = self@[b as int];
        assert(self.btrees@[b as int]@ == t);
        let n = self.btrees[b].len();
        if n as u64 >= 0x7fff_ffff_ffff_fffe {
            return Err(BchErrcode::Fatal(ENOSPC));
        }
        let mut tree = self.btrees.remove(b);
        assert(tree@ == t);
        let mut i: usize = 0;
        while i < tree.len() && bpos_less(&tree[i].k.p, &k.k.p)
            invariant
                tree@ == t,
                sorted_keys(t),
                i <= t.len(),
                forall|j: int| 0 <= j < i ==> bpos_lt(#[trigger] t[j].k.p, k.k.p),
            decreases t.len() - i,
        {
            i += 1;
        }
        assert(is_insert_index(t, k.k.p, i as int)) by {
            assert forall|j: int| i <= j < t.len() implies bpos_le(k.k.p, #[trigger] t[j].k.p) by {
                if j > i {
                    assert(bpos_lt(t[i as int].k.p, t[j].k.p));
                }
            }
        }
        let ghost ci = choose|ci: int| is_insert_index(t, k.k.p, ci);
        assert(ci == i) by {
            if ci < i {
                assert(bpos_lt(t[ci].k.p, k.k.p));
            } else if ci > i {
                assert(bpos_lt(t[i as int].k.p, k.k.p));
            }
        }
        let ghost nt = tree_insert(t, k);
        if i < tree.len() && tree[i].k.p == k.k.p {
            tree.set(i, k);
            assert(tree@ == nt);
            proof {
                assert forall|x: int, y: int| 0 <= x < y < nt.len() implies bpos_lt(nt[x].k.p, nt[y].k.p) by {
                    assert(nt[x].k.p == t[x].k.p);
                    assert(nt[y].k.p == t[y].k.p);
                }
                assert(known_tags(nt));
            }
        } else {
            tree.insert(i, k);
            assert(tree@ == nt);
            proof {
                assert forall|x: int, y: int| 0 <= x < y < nt.len() implies bpos_lt(nt[x].k.p, nt[y].k.p) by {
                    if y < i {
                    } else if x < i && y == i {
                    } else if x < i {
                        assert(nt[y] == t[y - 1]);
                    } else if x == i {
                        assert(nt[y] == t[y - 1]);
                        assert(bpos_le(k.k.p, t[y - 1].k.p));
                        if i < t.len() {
                            assert(bpos_le(k.k.p, t[i as int].k.p));
                        }
                    } else {
                        assert(nt[y] == t[y - 1]);
                        assert(nt[x] == t[x - 1]);
                    }
                }
                assert forall|x: int| 0 <= x < nt.len() implies (#[trigger] nt[x]).k.type_ < KEY_TYPE_MAX by {
                    if x > i {
                        assert(nt[x] == t[x - 1]);
                    } else if x < i {
                        assert(nt[x] == t[x]);
                    }
                }
            }
        }
        self.btrees.insert(b, tree);
        assert(self@ =~= old_view.update(b as int, nt));
        Ok(())
    }
}

/// A transaction: a scoped view of the store that cursors borrow.
pub struct BtreeTrans<'f> {
    pub fs: &'f Fs,
}

impl<'f> BtreeTrans<'f> {
    /// Begins a transaction against `fs`.
    pub fn new(fs: &'f Fs) -> (r: BtreeTrans<'f>)
        requires
            fs.wf(),
        ensures
            r.fs == fs,
    {
        BtreeTrans { fs }
    }
}

/// What a key cursor holds: the keys of its btree, where it stands, which
/// snapshots it sees, and whether it is exhausted or waits for a restart.
pub struct IterView {
    pub keys: Seq<BkeyI>,
    pub pos: Bpos,
    pub snapshot: u32,
    pub all_snapshots: bool,
    pub at_end: bool,
    pub restart_pending: bool,
}

/// The cursor sees `k`: every snapshot, or only its own.
pub open spec fn visible(v: IterView, k: BkeyI) -> bool {
    v.all_snapshots || k.k.p.snapshot == v.snapshot
}

/// Key `i` is one the cursor could return: visible and not before its position.
pub open spec fn candidate(v: IterView, i: int) -> bool {
    0 <= i < v.keys.len() && visible(v, v.keys[i]) && bpos_le(v.pos, v.keys[i].k.p)
}

/// Key `i` is the first one that the cursor could return.
pub open spec fn is_next(v: IterView, i: int) -> bool {
    candidate(v, i) && forall|j: int| 0 <= j < i ==> !#[trigger] candidate(v, j)
}

/// The first key that the cursor could return, if any.
pub open spec fn next_index(v: IterView) -> Option<int> {
    if exists|i: int| is_next(v, i) {
        Some(choose|i: int| is_next(v, i))
    } else {
        None
    }
}

/// What a bounded peek reports: the index of the key, none, or an error.
pub open spec fn peek_result(v: IterView, end: Bpos) -> Result<Option<int>, BchErrcode> {
    if v.restart_pending {
        Err(BchErrcode::WouldRestartTransaction)
    } else if v.at_end {
        Ok(None)
    } else {
        match next_index(v) {
            Some(i) => if bpos_lt(end, v.keys[i].k.p) {
                Ok(None)
            } else {
                Ok(Some(i))
            },
            None => Ok(None),
        }
    }
}

/// The cursor after a bounded peek: it stands on the key it returned.
pub open spec fn peek_state(v: IterView, end: Bpos) -> IterView {
    match peek_result(v, end) {
        Ok(Some(i)) => IterView { pos: v.keys[i].k.p, ..v },
        _ => v,
    }
}

/// The cursor after a restart.
pub open spec fn restarted(v: IterView) -> IterView {
    IterView { restart_pending: false, ..v }
}

/// The cursor after `advance`: past its position, or exhausted after the last one.
pub open spec fn advance_state(v: IterView) -> IterView {
    if v.at_end {
        v
    } else if v.pos == spos_max() {
        IterView { at_end: true, ..v }
    } else {
        IterView { pos: successor_spec(v.pos), ..v }
    }
}

/// A cursor over the keys of one btree, within one transaction.
pub struct BtreeIter<'t> {
    trans: &'t BtreeTrans<'t>,
    btree: BtreeId,
    pos: Bpos,
    snapshot: u32,
    flags: BtreeIterFlags,
    at_end: bool,
    restart_pending: bool,
}

impl<'t> View for BtreeIter<'t> {
    type V = IterView;

    closed spec fn view(&self) -> IterView {
        IterView {
            keys: self.trans.fs@[btree_id_index(self.btree) as int],
            pos: self.pos,
            snapshot: self.snapshot,
            all_snapshots: self.flags@ & BTREE_ITER_ALL_SNAPSHOTS != 0,
            at_end: self.at_end,
            restart_pending: self.restart_pending,
        }
    }
}

impl<'t> BtreeIter<'t> {
    pub closed spec fn wf(&self) -> bool {
        self.trans.fs.wf()
    }

    /// Opens a cursor on `btree` at `pos`.  Without `BTREE_ITER_ALL_SNAPSHOTS`
    /// it sees only the keys of `pos`'s snapshot.
    pub fn new(
        trans: &'t BtreeTrans<'t>,
        btree: BtreeId,
        pos: Bpos,
        flags: BtreeIterFlags,
    ) -> (r: BtreeIter<'t>)
        requires
            trans.fs.wf(),
        ensures
            r.wf(),
            r@ == (IterView {
                keys: trans.fs@[btree_id_index(btree) as int],
                pos,
                snapshot: pos.snapshot,
                all_snapshots: flags@ & BTREE_ITER_ALL_SNAPSHOTS != 0,
                at_end: false,
                restart_pending: false,
            }),
            sorted_keys(r@.keys),
            known_tags(r@.keys),
    {
        proof {
            lemma_btree_id_index_bound(btree);
        }
        BtreeIter {
            trans,
            btree,
            pos,
            snapshot: pos.snapshot,
            flags,
            at_end: false,
            restart_pending: false,
        }
    }

    /// The engine's raw answer to a peek: `-BCH_ERR_TRANSACTION_RESTART` while a
    /// restart is pending, 0 when no key is left, else one more than the index of
    /// the next key.
    fn raw_peek(&self) -> (raw: i64)
        requires
            self.wf(),
        ensures
            self@.restart_pending ==> raw == -BCH_ERR_TRANSACTION_RESTART,
            !self@.restart_pending && self@.at_end ==> raw == 0,
            !self@.restart_pending && !self@.at_end ==> (raw == 0 <==> next_index(self@) is None),
            !self@.restart_pending && raw != 0 ==> !self@.at_end && 0 < raw && next_index(self@) == Some(
                (raw - 1) as int,
            ),
    {
        if self.restart_pending {
            return -BCH_ERR_TRANSACTION_RESTART;
        }
        if self.at_end {
            return 0;
        }
        proof {
            lemma_btree_id_index_bound(self.btree);
        }
        let ghost v = self@;
        let keys: &Vec<BkeyI> = &self.trans.fs.btrees[self.btree.index() as usize];
        assert(keys@ == v.keys);
        let all = self.flags.bits & BTREE_ITER_ALL_SNAPSHOTS != 0;
        let mut i: usize = 0;
        while i < keys.len()
            invariant
                keys@ == v.keys,
                v == self@,
                !v.restart_pending,
                !v.at_end,
                v.keys.len() < i64::MAX,
                all == v.all_snapshots,
                v.pos == self.pos,
                v.snapshot == self.snapshot,
                i <= v.keys.len(),
                forall|j: int| 0 <= j < i ==> !#[trigger] candidate(v, j),
            decreases v.keys.len() - i,
        {
            let k = &keys[i];
            if (all || k.k.p.snapshot == self.snapshot) && !bpos_less(&k.k.p, &self.pos) {
                assert(candidate(v, i as int));
                assert(is_next(v, i as int));
                proof {
                    lemma_next_index_unique(v, i as int);
                }
                return (i + 1) as i64;
            }
            i += 1;
        }
        assert(next_index(v) is None) by {
            if exists|i: int| is_next(v, i) {
                let j = choose|j: int| is_next(v, j);
                assert(candidate(v, j));
            }
        }
        0
    }

    /// The next key at or after the cursor's position, if it is not after `end`;
    /// the cursor moves onto it.  The same key comes back until `advance`.
    pub fn peek_upto<'i>(&'i mut self, end: Bpos) -> (r: Result<Option<BkeySC<'i>>, BchErrcode>)
        requires
            old(self).wf(),
        ensures
            final(self).wf(),
            final(self)@ == peek_state(old(self)@, end),
            r is Err <==> peek_result(old(self)@, end) is Err,
            r is Err ==> r == Err::<Option<BkeySC<'i>>, BchErrcode>(BchErrcode::WouldRestartTransaction),
            r matches Ok(None) <==> peek_result(old(self)@, end) == Ok::<Option<int>, BchErrcode>(None),
            r matches Ok(Some(k)) ==> peek_result(old(self)@, end) matches Ok(Some(i))
                && *k.k == old(self)@.keys[i].k && k.v@ == old(self)@.keys[i].v@,
    {
        let raw = self.raw_peek();
        match errptr_to_result(raw) {
            Err(BchErrcode::NotFound) => Ok(None),
            Err(e) => Err(e),
            Ok(h) => {
                proof {
                    lemma_btree_id_index_bound(self.btree);
                }
                let fs: &'t Fs = self.trans.fs;
                let keys: &'t Vec<BkeyI> = &fs.btrees[self.btree.index() as usize];
                assert(keys@ == old(self)@.keys);
                assert(candidate(old(self)@, h - 1));
                let n = keys.len();
                let i = (h - 1) as usize;
                let k: &'t BkeyI = &keys[i];
                if bpos_less(&end, &k.k.p) {
                    Ok(None)
                } else {
                    self.pos = k.k.p;
                    Ok(Some(BkeySC::from(k)))
                }
            },
        }
    }

    /// The next key at or after the cursor's position: `peek_upto(spos_max())`.
    pub fn peek<'i>(&'i mut self) -> (r: Result<Option<BkeySC<'i>>, BchErrcode>)
        requires
            old(self).wf(),
        ensures
            final(self).wf(),
            final(self)@ == peek_state(old(self)@, spos_max()),
            r is Err <==> peek_result(old(self)@, spos_max()) is Err,
            r is Err ==> r == Err::<Option<BkeySC<'i>>, BchErrcode>(BchErrcode::WouldRestartTransaction),
            r matches Ok(None) <==> peek_result(old(self)@, spos_max()) == Ok::<Option<int>, BchErrcode>(None),
            r matches Ok(Some(k)) ==> peek_result(old(self)@, spos_max()) matches Ok(Some(i))
                && *k.k == old(self)@.keys[i].k && k.v@ == old(self)@.keys[i].v@,
    {
        self.peek_upto(spos_max())
    }

    /// Like `peek`, but a pending restart is carried out first and the peek done
    /// after it, instead of being reported.
    pub fn peek_and_restart<'i>(&'i mut self) -> (r: Result<Option<BkeySC<'i>>, BchErrcode>)
        requires
            old(self).wf(),
        ensures
            final(self).wf(),
            final(self)@ == peek_state(restarted(old(self)@), spos_max()),
            r is Ok,
            r matches Ok(None) <==> peek_result(restarted(old(self)@), spos_max()) == Ok::<Option<int>, BchErrcode>(None),
            r matches Ok(Some(k)) ==> peek_result(restarted(old(self)@), spos_max()) matches Ok(Some(i))
                && *k.k == old(self)@.keys[i].k && k.v@ == old(self)@.keys[i].v@,
    {
        if self.restart_pending {
            self.restart_pending = false;
        }
        self.peek_upto(spos_max())
    }

    /// Moves the cursor past its position; past `spos_max()` it is exhausted.
    pub fn advance(&mut self)
        requires
            old(self).wf(),
        ensures
            final(self).wf(),
            final(self)@ == advance_state(old(self)@),
    {
        if self.at_end {
            return;
        }
        if self.pos == spos_max() {
            self.at_end = true;
        } else {
            self.pos = bpos_successor(self.pos);
        }
    }

    /// Makes the engine demand a restart: the lock contention that forces one.
    /// Until the restart is carried out, `peek` and `peek_upto` report it.
    pub fn inject_restart(&mut self)
        requires
            old(self).wf(),
        ensures
            final(self).wf(),
            final(self)@ == (IterView { restart_pending: true, ..old(self)@ }),
    {
        self.restart_pending = true;
    }
}

/// The first candidate key is the one the cursor returns next.
pub proof fn lemma_next_index_unique(v: IterView, i: int)
    requires
        is_next(v, i),
    ensures
        next_index(v) == Some(i),
{
    let j = choose|j: int| is_next(v, j);
    if j < i {
        assert(!candidate(v, j));
    } else if j > i {
        assert(!candidate(v, i));
    }
}

/// Peeking twice without advancing gives the same answer both times, and the
/// second peek leaves the cursor where the first one did.
pub proof fn lemma_peek_idempotent(v: IterView, end: Bpos)
    requires
        sorted_keys(v.keys),
    ensures
        peek_result(peek_state(v, end), end) == peek_result(v, end),
        peek_state(peek_state(v, end), end) == peek_state(v, end),
{
    if let Ok(Some(i)) = peek_result(v, end) {
        let w = peek_state(v, end);
        let j = choose|j: int| is_next(v, j);
        lemma_next_index_unique(v, j);
        assert(i == j);
        assert(candidate(w, i));
        assert forall|m: int| 0 <= m < i implies !#[trigger] candidate(w, m) by {
            assert(bpos_lt(v.keys[m].k.p, v.keys[i].k.p));
        }
        lemma_next_index_unique(w, i);
    }
}

/// A scan by peek and advance returns keys in strictly increasing order, each
/// within the cursor's position and the bound, and skips no key that the cursor
/// sees: after key `i` comes the next visible key that is not beyond the bound,
/// or nothing if there is none.
pub proof fn lemma_scan_ordered(v: IterView, end: Bpos, i: int)
    requires
        sorted_keys(v.keys),
        peek_result(v, end) == Ok::<Option<int>, BchErrcode>(Some(i)),
    ensures
        0 <= i < v.keys.len(),
        visible(v, v.keys[i]),
        bpos_le(v.pos, v.keys[i].k.p),
        bpos_le(v.keys[i].k.p, end),
        forall|j: int|
            #![trigger peek_result(advance_state(peek_state(v, end)), end), v.keys[j]]
            peek_result(advance_state(peek_state(v, end)), end) == Ok::<Option<int>, BchErrcode>(
                Some(j),
            ) ==> i < j && bpos_lt(v.keys[i].k.p, v.keys[j].k.p) && forall|m: int|
                i < m < j ==> !visible(v, #[trigger] v.keys[m]),
        peek_result(advance_state(peek_state(v, end)), end) == Ok::<Option<int>, BchErrcode>(None)
            ==> forall|m: int|
            i < m < v.keys.len() && visible(v, #[trigger] v.keys[m]) ==> bpos_lt(
                end,
                v.keys[m].k.p,
            ),
{
    let j0 = choose|j: int| is_next(v, j);
    lemma_next_index_unique(v, j0);
    assert(i == j0);
    let u = peek_state(v, end);
    let w = advance_state(u);
    let p = v.keys[i].k.p;
    if p == spos_max() {
        assert forall|m: int| i < m < v.keys.len() implies !visible(v, #[trigger] v.keys[m]) by {
            assert(bpos_lt(p, v.keys[m].k.p));
            lemma_bpos_bounds(v.keys[m].k.p);
        }
    } else {
        lemma_successor(p);
        assert(w.pos == successor_spec(p));
        assert forall|m: int| 0 <= m < v.keys.len() implies (#[trigger] candidate(w, m) <==> (i < m
            && visible(v, v.keys[m]))) by {
            if m <= i {
                if m < i {
                    assert(bpos_lt(v.keys[m].k.p, p));
                }
                assert(!bpos_lt(p, v.keys[m].k.p));
            } else {
                assert(bpos_lt(p, v.keys[m].k.p));
            }
        }
        if let Ok(Some(j)) = peek_result(w, end) {
            let j1 = choose|j: int| is_next(w, j);
            lemma_next_index_unique(w, j1);
            assert(j == j1);
            assert(candidate(w, j));
            assert forall|m: int| i < m < j implies !visible(v, #[trigger] v.keys[m]) by {
                assert(!candidate(w, m));
            }
        }
        if peek_result(w, end) == Ok::<Option<int>, BchErrcode>(None) {
            assert forall|m: int| i < m < v.keys.len() && visible(v, #[trigger] v.keys[m]) implies bpos_lt(
                end,
                v.keys[m].k.p,
            ) by {
                assert(candidate(w, m));
                if next_index(w) is None {
                    assert(!is_next(w, m));
                    assert(exists|j: int| 0 <= j < m && #[trigger] candidate(w, j)) by {
                        lemma_candidate_has_first(w, m);
                    }
                    let j = choose|j: int| is_next(w, j);
                    assert(false) by {
                        lemma_candidate_has_first(w, m);
                    }
                } else {
                    let j = choose|j: int| is_next(w, j);
                    lemma_next_index_unique(w, j);
                    assert(bpos_lt(end, v.keys[j].k.p));
                    assert(j <= m);
                    if j < m {
                        assert(bpos_lt(v.keys[j].k.p, v.keys[m].k.p));
                    }
                }
            }
        }
    }
}

/// A candidate key means there is a first one, no later than it.
proof fn lemma_candidate_has_first(v: IterView, m: int)
    requires
        candidate(v, m),
    ensures
        exists|j: int| is_next(v, j) && j <= m,
    decreases m,
{
    if forall|j: int| 0 <= j < m ==> !#[trigger] candidate(v, j) {
        assert(is_next(v, m));
    } else {
        let j = choose|j: int| 0 <= j < m && #[trigger] candidate(v, j);
        lemma_candidate_has_first(v, j);
    }
}

/// A restart forced on the cursor changes nothing that `peek_and_restart`
/// shows: two cursors that differ only in a pending restart get the same key
/// and stand at the same place afterwards; and after a key has been peeked, a
/// forced restart followed by `peek_and_restart` gives that same key again,
/// neither skipping nor repeating one.
pub proof fn lemma_restart_transparent(v: IterView, w: IterView)
    requires
        sorted_keys(v.keys),
        restarted(v) == restarted(w),
    ensures
        peek_result(restarted(v), spos_max()) == peek_result(restarted(w), spos_max()),
        peek_state(restarted(v), spos_max()) == peek_state(restarted(w), spos_max()),
        !v.restart_pending ==> peek_result(
            restarted(IterView { restart_pending: true, ..peek_state(v, spos_max()) }),
            spos_max(),
        ) == peek_result(v, spos_max()),
{
    if !v.restart_pending {
        lemma_peek_idempotent(v, spos_max());
        assert(restarted(IterView { restart_pending: true, ..peek_state(v, spos_max()) })
            == peek_state(v, spos_max()));
    }
}

/// Levels of a btree: nodes exist at depths below this.
pub const BTREE_MAX_DEPTH: u32 = 4;

/// Length of a key header, in 64-bit words.
pub const BKEY_U64S: u8 = 5;

/// Type tag of the key that points to a btree node.
pub const KEY_TYPE_BTREE_PTR_V2: u8 = 18;

/// How many keys a node at `depth` spans: 16 per leaf, 16 children per node.
pub open spec fn node_span(depth: nat) -> nat {
    if depth == 0 {
        16
    } else if depth == 1 {
        256
    } else if depth == 2 {
        4096
    } else {
        65536
    }
}

/// How many nodes there are at `depth` over `n` keys; an empty btree has one.
pub open spec fn node_count(n: nat, depth: nat) -> nat {
    if n == 0 {
        1
    } else {
        ((n + node_span(depth) - 1) / (node_span(depth) as int)) as nat
    }
}

/// The largest position that node `i` covers: that of its last key, or
/// `spos_max()` for the last node.
pub open spec fn node_max(keys: Seq<BkeyI>, depth: nat, i: nat) -> Bpos {
    if i + 1 >= node_count(keys.len(), depth) {
        spos_max()
    } else {
        keys[((i + 1) * node_span(depth) - 1) as int].k.p
    }
}

/// The smallest position that node `i` covers.
pub open spec fn node_min(keys: Seq<BkeyI>, depth: nat, i: nat) -> Bpos {
    if i == 0 {
        pos_min()
    } else if node_max(keys, depth, (i - 1) as nat) == spos_max() {
        spos_max()
    } else {
        successor_spec(node_max(keys, depth, (i - 1) as nat))
    }
}

/// How many keys node `i` holds.
pub open spec fn node_nr_keys(n: nat, depth: nat, i: nat) -> nat {
    let hi = if (i + 1) * node_span(depth) < n {
        (i + 1) * node_span(depth)
    } else {
        n
    };
    if hi >= i * node_span(depth) {
        (hi - i * node_span(depth)) as nat
    } else {
        0
    }
}

/// A node of a btree, as a node cursor shows it.
#[allow(non_camel_case_types)]
#[derive(Clone, Debug)]
pub struct btree {
    pub level: u32,
    pub min_key: Bpos,
    pub max_key: Bpos,
    pub nr_keys: u64,
    /// The key that points to this node; its position is `max_key`.
    pub key: BkeyI,
}

/// Node `i` at `depth` of a btree whose keys are `keys`, as a node cursor returns it.
pub open spec fn is_node(b: btree, keys: Seq<BkeyI>, depth: nat, i: nat) -> bool {
    &&& b.level == depth
    &&& b.min_key == node_min(keys, depth, i)
    &&& b.max_key == node_max(keys, depth, i)
    &&& b.nr_keys == node_nr_keys(keys.len(), depth, i)
    &&& b.key.k == (Bkey {
        u64s: BKEY_U64S,
        format: 0,
        type_: KEY_TYPE_BTREE_PTR_V2,
        p: b.max_key,
        size: 0,
    })
    &&& b.key.v@.len() == 0
}

/// What a node cursor holds.
pub struct NodeIterView {
    pub keys: Seq<BkeyI>,
    pub pos: Bpos,
    pub depth: u32,
    pub at_end: bool,
    pub restart_pending: bool,
}

/// Node `i` covers the cursor's position or lies after it.
pub open spec fn node_candidate(v: NodeIterView, i: int) -> bool {
    0 <= i < node_count(v.keys.len(), v.depth as nat) && bpos_le(
        v.pos,
        node_max(v.keys, v.depth as nat, i as nat),
    )
}

pub open spec fn node_is_next(v: NodeIterView, i: int) -> bool {
    node_candidate(v, i) && forall|j: int| 0 <= j < i ==> !#[trigger] node_candidate(v, j)
}

/// The node that covers the cursor's position.
pub open spec fn node_next_index(v: NodeIterView) -> int {
    choose|i: int| node_is_next(v, i)
}

/// What a node peek reports: the index of the node, none, or an error.
pub open spec fn node_peek_result(v: NodeIterView) -> Result<Option<int>, BchErrcode> {
    if v.restart_pending {
        Err(BchErrcode::WouldRestartTransaction)
    } else if v.at_end || v.depth >= BTREE_MAX_DEPTH {
        Ok(None)
    } else {
        Ok(Some(node_next_index(v)))
    }
}

/// The node cursor after `advance`: past the node that covers its position.
pub open spec fn node_advance_state(v: NodeIterView) -> NodeIterView {
    if v.at_end || v.depth >= BTREE_MAX_DEPTH {
        v
    } else if node_max(v.keys, v.depth as nat, node_next_index(v) as nat) == spos_max() {
        NodeIterView { at_end: true, ..v }
    } else {
        NodeIterView {
            pos: successor_spec(node_max(v.keys, v.depth as nat, node_next_index(v) as nat)),
            ..v
        }
    }
}

pub open spec fn node_restarted(v: NodeIterView) -> NodeIterView {
    NodeIterView { restart_pending: false, ..v }
}

/// The first node that covers or follows the position is the one returned.
pub proof fn lemma_node_is_next_unique(v: NodeIterView, i: int)
    requires
        node_is_next(v, i),
    ensures
        node_next_index(v) == i,
{
    let j = choose|j: int| node_is_next(v, j);
    if j < i {
        assert(!node_candidate(v, j));
    } else if j > i {
        assert(!node_candidate(v, i));
    }
}

/// Nodes before the last one end on a key of the btree.
pub proof fn lemma_node_index_bound(n: int, s: int, k: int)
    requires
        s > 0,
        n > 0,
        0 <= k < (n + s - 1) / s,
    ensures
        k * s < n,
{
    assert(((n + s - 1) / s) * s <= n + s - 1) by (nonlinear_arith)
        requires
            s > 0,
            n > 0,
    ;
    assert((k + 1) * s <= ((n + s - 1) / s) * s) by (nonlinear_arith)
        requires
            k + 1 <= (n + s - 1) / s,
            s > 0,
    ;
    assert((k + 1) * s == k * s + s) by (nonlinear_arith);
}

/// A cursor over the nodes of one btree at one depth, within one transaction.
pub struct BtreeNodeIter<'t> {
    trans: &'t BtreeTrans<'t>,
    btree: BtreeId,
    pos: Bpos,
    locks_want: u32,
    depth: u32,
    flags: BtreeIterFlags,
    at_end: bool,
    restart_pending: bool,
}

impl<'t> View for BtreeNodeIter<'t> {
    type V = NodeIterView;

    closed spec fn view(&self) -> NodeIterView {
        NodeIterView {
            keys: self.trans.fs@[btree_id_index(self.btree) as int],
            pos: self.pos,
            depth: self.depth,
            at_end: self.at_end,
            restart_pending: self.restart_pending,
        }
    }
}

impl<'t> BtreeNodeIter<'t> {
    pub closed spec fn wf(&self) -> bool {
        self.trans.fs.wf()
    }

    /// Opens a node cursor on `btree` at `pos`, over the nodes at `depth`
    /// (0 for leaves); `locks_want` is how many levels of locks to hold.
    pub fn new(
        trans: &'t BtreeTrans<'t>,
        btree: BtreeId,
        pos: Bpos,
        locks_want: u32,
        depth: u32,
        flags: BtreeIterFlags,
    ) -> (r: BtreeNodeIter<'t>)
        requires
            trans.fs.wf(),
        ensures
            r.wf(),
            r@ == (NodeIterView {
                keys: trans.fs@[btree_id_index(btree) as int],
                pos,
                depth,
                at_end: false,
                restart_pending: false,
            }),
            sorted_keys(r@.keys),
    {
        proof {
            lemma_btree_id_index_bound(btree);
        }
        BtreeNodeIter {
            trans,
            btree,
            pos,
            locks_want,
            depth,
            flags,
            at_end: false,
            restart_pending: false,
        }
    }

    /// The number of keys a node at the cursor's depth spans.
    fn span(&self) -> (r: u64)
        requires
            self.depth < BTREE_MAX_DEPTH,
        ensures
            r == node_span(self.depth as nat),
    {
        if self.depth == 0 {
            16
        } else if self.depth == 1 {
            256
        } else if self.depth == 2 {
            4096
        } else {
            65536
        }
    }

    /// Index of the node that covers the cursor's position.
    fn find_node(&self, keys: &Vec<BkeyI>) -> (r: u64)
        requires
            self.wf(),
            keys@ == self@.keys,
            self@.depth < BTREE_MAX_DEPTH,
        ensures
            node_is_next(self@, r as int),
            node_next_index(self@) == r as int,
            r < node_count(self@.keys.len(), self@.depth as nat),
    {
        let ghost v = self@;
        proof {
            lemma_btree_id_index_bound(self.btree);
        }
        let n = keys.len() as u64;
        let span = self.span();
        let count: u64 = if n == 0 {
            1
        } else {
            (n + span - 1) / span
        };
        assert(count == node_count(v.keys.len(), v.depth as nat));
        assert(count >= 1) by {
            if n > 0 {
                assert((n + span - 1) / (span as int) >= 1) by (nonlinear_arith)
                    requires
                        n >= 1,
                        span >= 1,
                ;
            }
        }
        let mut i: u64 = 0;
        loop
            invariant
                self.wf(),
                v == self@,
                v.depth < BTREE_MAX_DEPTH,
                keys@ == v.keys,
                n == v.keys.len(),
                v.keys.len() < i64::MAX,
                span == node_span(v.depth as nat),
                count == node_count(v.keys.len(), v.depth as nat),
                i < count,
                forall|j: int| 0 <= j < i ==> !#[trigger] node_candidate(v, j),
            decreases count - i,
        {
            let max = self.node_max_at(keys, i, count, span);
            if !bpos_less(&max, &self.pos) {
                assert(node_candidate(v, i as int));
                proof {
                    lemma_node_is_next_unique(v, i as int);
                }
                return i;
            }
            assert(i + 1 < count) by {
                if i + 1 >= count {
                    lemma_bpos_bounds(self.pos);
                }
            }
            i += 1;
        }
    }

    /// The largest position of node `i`.
    fn node_max_at(&self, keys: &Vec<BkeyI>, i: u64, count: u64, span: u64) -> (r: Bpos)
        requires
            self.wf(),
            keys@ == self@.keys,
            self@.depth < BTREE_MAX_DEPTH,
            keys@.len() < i64::MAX,
            span == node_span(self@.depth as nat),
            count == node_count(keys@.len(), self@.depth as nat),
            i < count,
        ensures
            r == node_max(self@.keys, self@.depth as nat, i as nat),
    {
        if i + 1 >= count {
            spos_max()
        } else {
            proof {
                lemma_node_index_bound(keys@.len() as int, span as int, (i + 1) as int);
            }
            let len = keys.len();
            assert((i + 1) * span - 1 < len);
            let idx = ((i + 1) * span - 1) as usize;
            keys[idx].k.p
        }
    }

    /// Builds node `i` of the cursor's depth.
    fn make_node(&self, keys: &Vec<BkeyI>, i: u64) -> (r: btree)
        requires
            self.wf(),
            keys@ == self@.keys,
            self@.depth < BTREE_MAX_DEPTH,
            i < node_count(self@.keys.len(), self@.depth as nat),
        ensures
            is_node(r, self@.keys, self@.depth as nat, i as nat),
    {
        proof {
            lemma_btree_id_index_bound(self.btree);
        }
        let n = keys.len() as u64;
        let span = self.span();
        let count: u64 = if n == 0 {
            1
        } else {
            (n + span - 1) / span
        };
        let max_key = self.node_max_at(keys, i, count, span);
        let min_key = if i == 0 {
            pos_min()
        } else {
            let prev = self.node_max_at(keys, i - 1, count, span);
            if prev == spos_max() {
                prev
            } else {
                bpos_successor(prev)
            }
        };
        let nr_keys: u64 = if n == 0 {
            0
        } else {
            proof {
                lemma_node_index_bound(n as int, span as int, i as int);
                assert((i + 1) * span == i * span + span) by (nonlinear_arith);
            }
            let lo = i * span;
            let hi = if (i + 1) * span < n {
                (i + 1) * span
            } else {
                n
            };
            hi - lo
        };
        btree {
            level: self.depth,
            min_key,
            max_key,
            nr_keys,
            key: BkeyI {
                k: Bkey {
                    u64s: BKEY_U64S,
                    format: 0,
                    type_: KEY_TYPE_BTREE_PTR_V2,
                    p: max_key,
                    size: 0,
                },
                v: Vec::new(),
            },
        }
    }

    /// The node that covers the cursor's position; none at a depth with no nodes
    /// or once exhausted.
    pub fn peek(&mut self) -> (r: Result<Option<btree>, BchErrcode>)
        requires
            old(self).wf(),
        ensures
            final(self).wf(),
            final(self)@ == old(self)@,
            r is Err <==> node_peek_result(old(self)@) is Err,
            r is Err ==> r == Err::<Option<btree>, BchErrcode>(BchErrcode::WouldRestartTransaction),
            r matches Ok(None) <==> node_peek_result(old(self)@) == Ok::<Option<int>, BchErrcode>(None),
            r matches Ok(Some(b)) ==> node_peek_result(old(self)@) matches Ok(Some(i)) && is_node(
                b,
                old(self)@.keys,
                old(self)@.depth as nat,
                i as nat,
            ),
    {
        if self.restart_pending {
            return Err(BchErrcode::WouldRestartTransaction);
        }
        if self.at_end || self.depth >= BTREE_MAX_DEPTH {
            return Ok(None);
        }
        proof {
            lemma_btree_id_index_bound(self.btree);
        }
        let fs: &'t Fs = self.trans.fs;
        let keys: &'t Vec<BkeyI> = &fs.btrees[self.btree.index() as usize];
        let i = self.find_node(keys);
        Ok(Some(self.make_node(keys, i)))
    }

    /// Like `peek`, but a pending restart is carried out first.
    pub fn peek_and_restart(&mut self) -> (r: Result<Option<btree>, BchErrcode>)
        requires
            old(self).wf(),
        ensures
            final(self).wf(),
            final(self)@ == node_restarted(old(self)@),
            r is Ok,
            r matches Ok(None) <==> node_peek_result(node_restarted(old(self)@)) == Ok::<Option<int>, BchErrcode>(None),
            r matches Ok(Some(b)) ==> node_peek_result(node_restarted(old(self)@)) matches Ok(Some(i)) && is_node(
                b,
                old(self)@.keys,
                old(self)@.depth as nat,
                i as nat,
            ),
    {
        self.restart_pending = false;
        self.peek()
    }

    /// Moves the cursor to the node after the one that covers its position.
    pub fn advance(&mut self)
        requires
            old(self).wf(),
        ensures
            final(self).wf(),
            final(self)@ == node_advance_state(old(self)@),
    {
        if self.at_end || self.depth >= BTREE_MAX_DEPTH {
            return;
        }
        proof {
            lemma_btree_id_index_bound(self.btree);
        }
        let fs: &'t Fs = self.trans.fs;
        let keys: &'t Vec<BkeyI> = &fs.btrees[self.btree.index() as usize];
        let i = self.find_node(keys);
        let n = keys.len() as u64;
        let span = self.span();
        let count: u64 = if n == 0 {
            1
        } else {
            (n + span - 1) / span
        };
        let max = self.node_max_at(keys, i, count, span);
        if max == spos_max() {
            self.at_end = true;
        } else {
            self.pos = bpos_successor(max);
        }
    }

    /// The node that covers the cursor's position, after which the cursor moves
    /// past it.  On an error the cursor stays.
    pub fn next(&mut self) -> (r: Result<Option<btree>, BchErrcode>)
        requires
            old(self).wf(),
        ensures
            final(self).wf(),
            r is Err ==> final(self)@ == old(self)@,
            r is Ok ==> final(self)@ == node_advance_state(old(self)@),
            r is Err <==> node_peek_result(old(self)@) is Err,
            r matches Ok(None) <==> node_peek_result(old(self)@) == Ok::<Option<int>, BchErrcode>(None),
            r matches Ok(Some(b)) ==> node_peek_result(old(self)@) matches Ok(Some(i)) && is_node(
                b,
                old(self)@.keys,
                old(self)@.depth as nat,
                i as nat,
            ),
    {
        let r = self.peek();
        if r.is_ok() {
            self.advance();
        }
        r
    }

    /// Makes the engine demand a restart of this cursor's transaction.
    pub fn inject_restart(&mut self)
        requires
            old(self).wf(),
        ensures
            final(self).wf(),
            final(self)@ == (NodeIterView { restart_pending: true, ..old(self)@ }),
    {
        self.restart_pending = true;
    }
}

/// The text of a node: its level, the range of positions it covers, and how
/// many keys it holds.
pub open spec fn node_text(level: nat, min_key: Bpos, max_key: Bpos, nr_keys: nat) -> Seq<char> {
    "l "@ + dec(level) + " "@ + bpos_text(min_key) + " - "@ + bpos_text(max_key) + " keys "@ + dec(
        nr_keys,
    )
}

/// The text that describes a node as stored.
pub open spec fn node_ondisk_text(level: nat, min_key: Bpos, max_key: Bpos, nr_keys: nat) -> Seq<char> {
    "btree node level "@ + dec(level) + " min "@ + bpos_text(min_key) + " max "@ + bpos_text(max_key)
        + " nr_keys "@ + dec(nr_keys)
}

impl btree {
    /// The node as text, through `fs`.
    pub fn to_text<'b, 'f>(&'b self, fs: &'f Fs) -> (r: BtreeNodeToText<'b, 'f>)
        ensures
            r.b == self,
    {
        BtreeNodeToText { b: self, fs }
    }

    /// The node's stored form as text, through `fs`.
    pub fn ondisk_to_text<'b, 'f>(&'b self, fs: &'f Fs) -> (r: BtreeNodeOndiskToText<'b, 'f>)
        ensures
            r.b == self,
    {
        BtreeNodeOndiskToText { b: self, fs }
    }
}

/// A node to be rendered as text.
pub struct BtreeNodeToText<'b, 'f> {
    pub b: &'b btree,
    pub fs: &'f Fs,
}

impl<'b, 'f> BtreeNodeToText<'b, 'f> {
    pub fn to_string(&self) -> (r: String)
        ensures
            r@ == node_text(self.b.level as nat, self.b.min_key, self.b.max_key, self.b.nr_keys as nat),
    {
        let mut buf = Printbuf::new();
        buf.push_str("l ");
        buf.push_u64(self.b.level as u64);
        buf.push_str(" ");
        buf.push_bpos(&self.b.min_key);
        buf.push_str(" - ");
        buf.push_bpos(&self.b.max_key);
        buf.push_str(" keys ");
        buf.push_u64(self.b.nr_keys);
        assert(buf@ =~= node_text(self.b.level as nat, self.b.min_key, self.b.max_key, self.b.nr_keys as nat));
        buf.into_string()
    }
}

/// A node's stored form to be rendered as text.
pub struct BtreeNodeOndiskToText<'b, 'f> {
    pub b: &'b btree,
    pub fs: &'f Fs,
}

impl<'b, 'f> BtreeNodeOndiskToText<'b, 'f> {
    pub fn to_string(&self) -> (r: String)
        ensures
            r@ == node_ondisk_text(self.b.level as nat, self.b.min_key, self.b.max_key, self.b.nr_keys as nat),
    {
        let mut buf = Printbuf::new();
        buf.push_str("btree node level ");
        buf.push_u64(self.b.level as u64);
        buf.push_str(" min ");
        buf.push_bpos(&self.b.min_key);
        buf.push_str(" max ");
        buf.push_bpos(&self.b.max_key);
        buf.push_str(" nr_keys ");
        buf.push_u64(self.b.nr_keys);
        assert(buf@ =~= node_ondisk_text(self.b.level as nat, self.b.min_key, self.b.max_key, self.b.nr_keys as nat));
        buf.into_string()
    }
}

} // verus!
