//! Listing the contents of a btree as text: its keys, or its nodes.
use vstd::prelude::*;
use crate::bkey::{bkey_type_tag, bkey_val_text, Bkey, BkeyI, BkeySC, BkeyType};
use crate::bpos::{
    bpos_le, bpos_less, bpos_lt, lemma_bpos_bounds, lemma_successor, spos_max, successor_spec, Bpos,
};
use crate::btree::{
    btree, candidate, is_insert_index, is_next, is_node, lemma_next_index_unique,
    lemma_node_index_bound, lemma_node_is_next_unique, node_candidate, node_count, node_is_next,
    node_max, node_min, node_next_index, node_nr_keys, node_ondisk_text, node_restarted,
    node_span, node_text, peek_result, restarted, sorted_keys, BtreeIter, BtreeIterFlags,
    BtreeNodeIter, BtreeTrans, Fs, NodeIterView, BKEY_U64S, BTREE_ITER_ALL_SNAPSHOTS,
    BTREE_ITER_PREFETCH, BTREE_MAX_DEPTH, KEY_TYPE_BTREE_PTR_V2,
};
use crate::btree_id::{btree_id_index, lemma_btree_id_index_bound, BtreeId};
use crate::errcode::BchErrcode;

verus! {

/// What a listing shows.
#[derive(Clone, Copy, Debug, PartialEq, Eq, Structural)]
pub enum ListMode {
    Keys,
    Formats,
    Nodes,
    NodesOndisk,
}

/// What to list: from which btree, which key type only, at which node depth,
/// and between which positions.
#[derive(Clone, Copy, Debug, PartialEq, Eq, Structural)]
pub struct ListOpts {
    pub btree: BtreeId,
    pub bkey_type: Option<BkeyType>,
    pub level: u32,
    pub start: Bpos,
    pub end: Bpos,
    pub mode: ListMode,
}

/// Key `k` is listed: within `[start, end]`, and of type `ty` if one is asked for.
pub open spec fn key_listed(k: BkeyI, start: Bpos, end: Bpos, ty: Option<BkeyType>) -> bool {
    &&& bpos_le(start, k.k.p)
    &&& bpos_le(k.k.p, end)
    &&& ty matches Some(t) ==> k.k.type_ == bkey_type_tag(t)
}

/// The lines of a key listing over `keys`, in order.
pub open spec fn listed_keys(keys: Seq<BkeyI>, start: Bpos, end: Bpos, ty: Option<BkeyType>) -> Seq<Seq<char>>
    decreases keys.len(),
{
    if keys.len() == 0 {
        Seq::<Seq<char>>::empty()
    } else {
        let r = listed_keys(keys.drop_last(), start, end, ty);
        if key_listed(keys.last(), start, end, ty) {
            r.push(bkey_val_text(keys.last().k, keys.last().v@))
        } else {
            r
        }
    }
}

/// The views of a list of strings.
pub open spec fn lines_view(v: Seq<String>) -> Seq<Seq<char>> {
    v.map_values(|s: String| s@)
}

/// The place of `p` among sorted keys.
proof fn insert_index_of(keys: Seq<BkeyI>, p: Bpos) -> (i: int)
    requires
        sorted_keys(keys),
    ensures
        is_insert_index(keys, p, i),
    decreases keys.len(),
{
    if keys.len() == 0 {
        0
    } else {
        let d = keys.drop_last();
        assert(sorted_keys(d));
        let j = insert_index_of(d, p);
        let n = keys.len() - 1;
        if j < n {
            assert forall|m: int| j <= m < keys.len() implies bpos_le(p, #[trigger] keys[m].k.p) by {
                if m == n {
                    assert(d[j] == keys[j]);
                    assert(bpos_lt(keys[j].k.p, keys[n].k.p));
                } else {
                    assert(d[m] == keys[m]);
                }
            }
            assert forall|m: int| 0 <= m < j implies bpos_lt(#[trigger] keys[m].k.p, p) by {
                assert(d[m] == keys[m]);
            }
            j
        } else if bpos_lt(keys[n].k.p, p) {
            assert forall|m: int| 0 <= m < keys.len() implies bpos_lt(#[trigger] keys[m].k.p, p) by {
                if m < n {
                    assert(d[m] == keys[m]);
                }
            }
            keys.len() as int
        } else {
            assert forall|m: int| 0 <= m < n implies bpos_lt(#[trigger] keys[m].k.p, p) by {
                assert(d[m] == keys[m]);
            }
            n
        }
    }
}

/// Keys before the start contribute no line.
proof fn lemma_listed_before_start(keys: Seq<BkeyI>, k: int, start: Bpos, end: Bpos, ty: Option<BkeyType>)
    requires
        0 <= k <= keys.len(),
        forall|m: int| 0 <= m < k ==> bpos_lt(#[trigger] keys[m].k.p, start),
    ensures
        listed_keys(keys.subrange(0, k), start, end, ty).len() == 0,
    decreases k,
{
    if k > 0 {
        lemma_listed_before_start(keys, k - 1, start, end, ty);
        assert(keys.subrange(0, k).drop_last() =~= keys.subrange(0, k - 1));
    }
}

/// Keys after the end contribute no line.
proof fn lemma_listed_after_end(keys: Seq<BkeyI>, k: int, j: int, start: Bpos, end: Bpos, ty: Option<BkeyType>)
    requires
        0 <= k <= j <= keys.len(),
        forall|m: int| k <= m < keys.len() ==> bpos_lt(end, #[trigger] keys[m].k.p),
    ensures
        listed_keys(keys.subrange(0, j), start, end, ty) == listed_keys(keys.subrange(0, k), start, end, ty),
    decreases j - k,
{
    if j > k {
        lemma_listed_after_end(keys, k, j - 1, start, end, ty);
        assert(keys.subrange(0, j).drop_last() =~= keys.subrange(0, j - 1));
    }
}

/// The flags of a listing cursor: every snapshot, read ahead.
fn listing_flags() -> (r: BtreeIterFlags)
    ensures
        r@ & BTREE_ITER_ALL_SNAPSHOTS != 0,
{
    let bits: u16 = BTREE_ITER_ALL_SNAPSHOTS | BTREE_ITER_PREFETCH;
    assert(bits & !0x7fffu16 == 0 && bits & 0x400u16 != 0) by (bit_vector)
        requires
            bits == 0x400u16 | 0x4u16,
    ;
    BtreeIterFlags::from_bits(bits).unwrap()
}

/// The flags of a node listing cursor: read ahead.
fn prefetch_flags() -> (r: BtreeIterFlags)
    ensures
        r@ == BTREE_ITER_PREFETCH,
{
    let bits: u16 = BTREE_ITER_PREFETCH;
    assert(bits & !0x7fffu16 == 0) by (bit_vector)
        requires
            bits == 0x4u16,
    ;
    BtreeIterFlags::from_bits(bits).unwrap()
}

/// The text of every key of `opt.btree` from `opt.start` to `opt.end`, in order,
/// keeping only keys of type `opt.bkey_type` if one is given.
pub fn list_keys(fs: &Fs, opt: &ListOpts) -> (r: Result<Vec<String>, BchErrcode>)
    requires
        fs.wf(),
    ensures
        r matches Ok(lines) && lines_view(lines@) == listed_keys(
            fs@[btree_id_index(opt.btree) as int],
            opt.start,
            opt.end,
            opt.bkey_type,
        ),
{
    let trans = BtreeTrans::new(fs);
    let mut iter = BtreeIter::new(&trans, opt.btree, opt.start, listing_flags());
    let ghost keys = iter@.keys;
    let ghost start = opt.start;
    let ghost end = opt.end;
    let ghost ty = opt.bkey_type;
    let ghost mut idx = insert_index_of(keys, opt.start);
    let mut lines: Vec<String> = Vec::new();
    proof {
        assert(iter@.pos == start);
        lemma_listed_before_start(keys, idx, start, end, ty);
        assert(lines_view(lines@) =~= listed_keys(keys.subrange(0, idx), start, end, ty));
    }
    loop
        invariant
            fs.wf(),
            iter.wf(),
            iter@.keys == keys,
            keys == fs@[btree_id_index(opt.btree) as int],
            sorted_keys(keys),
            iter@.all_snapshots,
            !iter@.restart_pending,
            0 <= idx <= keys.len(),
            !iter@.at_end ==> is_insert_index(keys, iter@.pos, idx),
            iter@.at_end ==> idx == keys.len(),
            lines_view(lines@) == listed_keys(keys.subrange(0, idx), start, end, ty),
            forall|m: int| idx <= m < keys.len() ==> bpos_le(start, #[trigger] keys[m].k.p),
            start == opt.start,
            end == opt.end,
            ty == opt.bkey_type,
        ensures
            lines_view(lines@) == listed_keys(keys, start, end, ty),
        decreases keys.len() - idx,
    {
        let ghost u = iter@;
        proof {
            if !u.at_end {
                assert forall|m: int| 0 <= m < keys.len() implies (#[trigger] candidate(u, m) <==> m >= idx) by {
                    if m < idx {
                        assert(bpos_lt(keys[m].k.p, u.pos));
                    }
                }
                if idx < keys.len() {
                    assert(is_next(u, idx));
                    lemma_next_index_unique(u, idx);
                    lemma_bpos_bounds(keys[idx].k.p);
                    assert(restarted(u) == u);
                    assert(peek_result(restarted(u), spos_max()) == Ok::<Option<int>, BchErrcode>(Some(idx)));
                } else if exists|j: int| is_next(u, j) {
                    let j = choose|j: int| is_next(u, j);
                    assert(candidate(u, j));
                }
            }
        }
        let (p, ty_tag, text) = match iter.peek_and_restart() {
            Ok(Some(k)) => (k.k.p, k.k.type_, k.to_text(fs).to_string()),
            _ => {
                proof {
                    if u.at_end {
                    } else if idx < keys.len() {
                        assert(false);
                    }
                    assert(idx == keys.len());
                    assert(keys.subrange(0, keys.len() as int) =~= keys);
                }
                break;
            },
        };
        assert(idx < keys.len() && p == keys[idx].k.p && ty_tag == keys[idx].k.type_);
        assert(text@ == bkey_val_text(keys[idx].k, keys[idx].v@));
        if bpos_less(&opt.end, &p) {
            proof {
                assert forall|m: int| idx <= m < keys.len() implies bpos_lt(end, #[trigger] keys[m].k.p) by {
                    if m > idx {
                        assert(bpos_lt(keys[idx].k.p, keys[m].k.p));
                    }
                }
                lemma_listed_after_end(keys, idx, keys.len() as int, start, end, ty);
                assert(keys.subrange(0, keys.len() as int) =~= keys);
            }
            break;
        }
        let keep = match opt.bkey_type {
            Some(t) => ty_tag == t.tag(),
            None => true,
        };
        if keep {
            lines.push(text);
        }
        proof {
            let s = keys.subrange(0, idx + 1);
            assert(s.drop_last() =~= keys.subrange(0, idx));
            assert(s.last() == keys[idx]);
            assert(lines_view(lines@) =~= listed_keys(s, start, end, ty));
        }
        iter.advance();
        proof {
            if p == spos_max() {
                assert forall|m: int| idx < m < keys.len() implies !bpos_le(p, #[trigger] keys[m].k.p) by {
                    assert(bpos_lt(keys[idx].k.p, keys[m].k.p));
                    lemma_bpos_bounds(keys[m].k.p);
                }
                if idx + 1 < keys.len() {
                    assert(bpos_lt(keys[idx].k.p, keys[idx + 1].k.p));
                }
            } else {
                lemma_successor(p);
                assert forall|m: int| 0 <= m < keys.len() implies (m < idx + 1 ==> bpos_lt(#[trigger] keys[m].k.p, successor_spec(p))) && (m >= idx + 1 ==> bpos_le(successor_spec(p), keys[m].k.p)) by {
                    if m < idx {
                        assert(bpos_lt(keys[m].k.p, p));
                    }
                    if m > idx {
                        assert(bpos_lt(p, keys[m].k.p));
                    }
                }
                assert(is_insert_index(keys, iter@.pos, idx + 1));
            }
            idx = idx + 1;
        }
    }
    Ok(lines)
}

/// Node `i` is listed: it ends within `[start, end]`.
pub open spec fn node_listed(keys: Seq<BkeyI>, depth: nat, i: nat, start: Bpos, end: Bpos) -> bool {
    bpos_le(start, node_max(keys, depth, i)) && bpos_le(node_max(keys, depth, i), end)
}

/// The key that points to node `i`.
pub open spec fn node_key(keys: Seq<BkeyI>, depth: nat, i: nat) -> Bkey {
    Bkey { u64s: BKEY_U64S, format: 0, type_: KEY_TYPE_BTREE_PTR_V2, p: node_max(keys, depth, i), size: 0 }
}

/// The line that shows node `i` in a listing of mode `mode`.
pub open spec fn node_line(keys: Seq<BkeyI>, depth: nat, i: nat, mode: ListMode) -> Seq<char> {
    match mode {
        ListMode::Nodes => bkey_val_text(node_key(keys, depth, i), Seq::<u8>::empty()),
        ListMode::NodesOndisk => node_ondisk_text(
            depth,
            node_min(keys, depth, i),
            node_max(keys, depth, i),
            node_nr_keys(keys.len(), depth, i),
        ),
        _ => node_text(
            depth,
            node_min(keys, depth, i),
            node_max(keys, depth, i),
            node_nr_keys(keys.len(), depth, i),
        ),
    }
}

/// The lines of a node listing over the first `c` nodes at `depth`, in order.
pub open spec fn listed_nodes(
    keys: Seq<BkeyI>,
    depth: nat,
    c: nat,
    start: Bpos,
    end: Bpos,
    mode: ListMode,
) -> Seq<Seq<char>>
    decreases c,
{
    if c == 0 {
        Seq::<Seq<char>>::empty()
    } else {
        let r = listed_nodes(keys, depth, (c - 1) as nat, start, end, mode);
        if node_listed(keys, depth, (c - 1) as nat, start, end) {
            r.push(node_line(keys, depth, (c - 1) as nat, mode))
        } else {
            r
        }
    }
}

/// The lines of a node listing at `depth`: none where nodes do not exist.
pub open spec fn node_listing(keys: Seq<BkeyI>, depth: u32, start: Bpos, end: Bpos, mode: ListMode) -> Seq<Seq<char>> {
    if depth >= BTREE_MAX_DEPTH {
        Seq::<Seq<char>>::empty()
    } else {
        listed_nodes(keys, depth as nat, node_count(keys.len(), depth as nat), start, end, mode)
    }
}

/// Nodes at one depth end at strictly increasing positions, so a node cursor
/// returns them in order.
pub proof fn lemma_node_max_increasing(keys: Seq<BkeyI>, depth: nat, i: nat, j: nat)
    requires
        sorted_keys(keys),
        depth < BTREE_MAX_DEPTH,
        keys.len() < i64::MAX,
        i < j < node_count(keys.len(), depth),
    ensures
        bpos_lt(node_max(keys, depth, i), node_max(keys, depth, j)),
{
    let n = keys.len() as int;
    let s = node_span(depth) as int;
    assert(n > 0);
    lemma_node_index_bound(n, s, (i + 1) as int);
    let a = (i + 1) * s - 1;
    if j + 1 >= node_count(keys.len(), depth) {
        assert(a < n - 1);
        assert(bpos_lt(keys[a].k.p, keys[n - 1].k.p));
        lemma_bpos_bounds(keys[n - 1].k.p);
    } else {
        lemma_node_index_bound(n, s, (j + 1) as int);
        assert((i + 1) * s < (j + 1) * s) by (nonlinear_arith)
            requires
                i < j,
                s > 0,
        ;
        assert(bpos_lt(keys[a].k.p, keys[(j + 1) * s - 1].k.p));
    }
}

/// Nodes that end before the start contribute no line.
proof fn lemma_nodes_before_start(keys: Seq<BkeyI>, depth: nat, k: nat, start: Bpos, end: Bpos, mode: ListMode)
    requires
        forall|m: nat| m < k ==> bpos_lt(#[trigger] node_max(keys, depth, m), start),
    ensures
        listed_nodes(keys, depth, k, start, end, mode).len() == 0,
    decreases k,
{
    if k > 0 {
        lemma_nodes_before_start(keys, depth, (k - 1) as nat, start, end, mode);
        assert(bpos_lt(node_max(keys, depth, (k - 1) as nat), start));
    }
}

/// Nodes that end after the end contribute no line.
proof fn lemma_nodes_after_end(keys: Seq<BkeyI>, depth: nat, k: nat, j: nat, start: Bpos, end: Bpos, mode: ListMode)
    requires
        k <= j,
        forall|m: nat| k <= m < j ==> bpos_lt(end, #[trigger] node_max(keys, depth, m)),
    ensures
        listed_nodes(keys, depth, j, start, end, mode) == listed_nodes(keys, depth, k, start, end, mode),
    decreases j - k,
{
    if j > k {
        lemma_nodes_after_end(keys, depth, k, (j - 1) as nat, start, end, mode);
        assert(bpos_lt(end, node_max(keys, depth, (j - 1) as nat)));
    }
}

/// The line for node `b` in a listing of mode `mode`.
fn node_line_of(b: &btree, fs: &Fs, mode: ListMode) -> (r: String)
    ensures
        mode == ListMode::Nodes ==> r@ == bkey_val_text(b.key.k, b.key.v@),
        mode == ListMode::NodesOndisk ==> r@ == node_ondisk_text(b.level as nat, b.min_key, b.max_key, b.nr_keys as nat),
        mode != ListMode::Nodes && mode != ListMode::NodesOndisk ==> r@ == node_text(b.level as nat, b.min_key, b.max_key, b.nr_keys as nat),
{
    match mode {
        ListMode::Nodes => {
            let k = BkeySC::from(&b.key);
            k.to_text(fs).to_string()
        },
        ListMode::NodesOndisk => b.ondisk_to_text(fs).to_string(),
        _ => b.to_text(fs).to_string(),
    }
}

/// The lines for the nodes of `opt.btree` at depth `opt.level` that end within
/// `[opt.start, opt.end]`, in order, rendered as `mode` asks.
fn list_nodes(fs: &Fs, opt: &ListOpts, mode: ListMode) -> (r: Result<Vec<String>, BchErrcode>)
    requires
        fs.wf(),
    ensures
        r matches Ok(lines) && lines_view(lines@) == node_listing(
            fs@[btree_id_index(opt.btree) as int],
            opt.level,
            opt.start,
            opt.end,
            mode,
        ),
{
    let trans = BtreeTrans::new(fs);
    let mut iter = BtreeNodeIter::new(&trans, opt.btree, opt.start, 0, opt.level, prefetch_flags());
    let mut lines: Vec<String> = Vec::new();
    if opt.level >= BTREE_MAX_DEPTH {
        return Ok(lines);
    }
    let ghost keys = iter@.keys;
    let ghost depth = opt.level as nat;
    let ghost start = opt.start;
    let ghost end = opt.end;
    let ghost count = node_count(keys.len(), depth);
    proof {
        lemma_btree_id_index_bound(opt.btree);
        lemma_bpos_bounds(start);
        assert(node_candidate(iter@, count - 1));
        lemma_first_node(iter@, (count - 1) as int);
    }
    let ghost mut idx: nat = node_next_index(iter@) as nat;
    proof {
        assert forall|m: nat| m < idx implies bpos_lt(#[trigger] node_max(keys, depth, m), start) by {
            assert(!node_candidate(iter@, m as int));
        }
        lemma_nodes_before_start(keys, depth, idx, start, end, mode);
        assert forall|m: nat| idx <= m < count implies bpos_le(start, #[trigger] node_max(keys, depth, m)) by {
            assert(node_candidate(iter@, idx as int));
            if m > idx {
                lemma_node_max_increasing(keys, depth, idx, m);
            }
        }
    }
    loop
        invariant
            fs.wf(),
            iter.wf(),
            iter@.keys == keys,
            iter@.depth == opt.level,
            keys == fs@[btree_id_index(opt.btree) as int],
            sorted_keys(keys),
            keys.len() < i64::MAX,
            depth == opt.level,
            depth < BTREE_MAX_DEPTH,
            count == node_count(keys.len(), depth),
            count >= 1,
            !iter@.restart_pending,
            idx <= count,
            !iter@.at_end ==> idx < count && node_next_index(iter@) == idx && node_is_next(iter@, idx as int),
            iter@.at_end ==> idx == count,
            lines_view(lines@) == listed_nodes(keys, depth, idx, start, end, mode),
            forall|m: nat| idx <= m < count ==> bpos_le(start, #[trigger] node_max(keys, depth, m)),
            start == opt.start,
            end == opt.end,
        ensures
            lines_view(lines@) == listed_nodes(keys, depth, count, start, end, mode),
        decreases count - idx,
    {
        let ghost u = iter@;
        let b = match iter.peek_and_restart() {
            Ok(Some(b)) => b,
            _ => {
                break;
            },
        };
        assert(node_restarted(u) == u);
        assert(is_node(b, keys, depth, idx));
        if bpos_less(&opt.end, &b.key.k.p) {
            proof {
                assert forall|m: nat| idx <= m < count implies bpos_lt(end, #[trigger] node_max(keys, depth, m)) by {
                    if m > idx {
                        lemma_node_max_increasing(keys, depth, idx, m);
                    }
                }
                lemma_nodes_after_end(keys, depth, idx, count, start, end, mode);
            }
            break;
        }
        let line = node_line_of(&b, fs, mode);
        lines.push(line);
        proof {
            assert(b.key.v@ =~= Seq::<u8>::empty());
            assert(b.key.k == node_key(keys, depth, idx));
            assert(node_listed(keys, depth, idx, start, end));
            assert(lines_view(lines@) =~= listed_nodes(keys, depth, idx + 1, start, end, mode));
        }
        iter.advance();
        proof {
            let mx = node_max(keys, depth, idx);
            if mx == spos_max() {
                if idx + 1 < count {
                    lemma_node_max_increasing(keys, depth, idx, idx + 1);
                    lemma_bpos_bounds(node_max(keys, depth, idx + 1));
                }
            } else {
                lemma_successor(mx);
                let w = iter@;
                assert(w.pos == successor_spec(mx));
                if idx + 1 >= count {
                    assert(mx == spos_max());
                }
                assert forall|m: int| 0 <= m < idx + 1 implies !#[trigger] node_candidate(w, m) by {
                    if m < idx {
                        lemma_node_max_increasing(keys, depth, m as nat, idx);
                    }
                }
                lemma_node_max_increasing(keys, depth, idx, idx + 1);
                assert(node_candidate(w, (idx + 1) as int));
                lemma_node_is_next_unique(w, (idx + 1) as int);
            }
            idx = idx + 1;
        }
    }
    Ok(lines)
}

/// Some node covers every position: the first node that covers or follows `i`'s.
proof fn lemma_first_node(v: NodeIterView, i: int)
    requires
        node_candidate(v, i),
    ensures
        node_is_next(v, node_next_index(v)),
    decreases i,
{
    if forall|j: int| 0 <= j < i ==> !#[trigger] node_candidate(v, j) {
        assert(node_is_next(v, i));
    } else {
        let j = choose|j: int| 0 <= j < i && #[trigger] node_candidate(v, j);
        lemma_first_node(v, j);
    }
}

/// The nodes at depth `opt.level` as text, one line per node.
pub fn list_btree_formats(fs: &Fs, opt: &ListOpts) -> (r: Result<Vec<String>, BchErrcode>)
    requires
        fs.wf(),
    ensures
        r matches Ok(lines) && lines_view(lines@) == node_listing(
            fs@[btree_id_index(opt.btree) as int],
            opt.level,
            opt.start,
            opt.end,
            ListMode::Formats,
        ),
{
    list_nodes(fs, opt, ListMode::Formats)
}

/// The keys that point to the nodes at depth `opt.level`, as text.
pub fn list_btree_nodes(fs: &Fs, opt: &ListOpts) -> (r: Result<Vec<String>, BchErrcode>)
    requires
        fs.wf(),
    ensures
        r matches Ok(lines) && lines_view(lines@) == node_listing(
            fs@[btree_id_index(opt.btree) as int],
            opt.level,
            opt.start,
            opt.end,
            ListMode::Nodes,
        ),
{
    list_nodes(fs, opt, ListMode::Nodes)
}

/// The stored form of the nodes at depth `opt.level`, as text.
pub fn list_nodes_ondisk(fs: &Fs, opt: &ListOpts) -> (r: Result<Vec<String>, BchErrcode>)
    requires
        fs.wf(),
    ensures
        r matches Ok(lines) && lines_view(lines@) == node_listing(
            fs@[btree_id_index(opt.btree) as int],
            opt.level,
            opt.start,
            opt.end,
            ListMode::NodesOndisk,
        ),
{
    list_nodes(fs, opt, ListMode::NodesOndisk)
}

/// The listing that `opt.mode` asks for.
pub fn list_btree(fs: &Fs, opt: &ListOpts) -> (r: Result<Vec<String>, BchErrcode>)
    requires
        fs.wf(),
    ensures
        r matches Ok(lines) && lines_view(lines@) == match opt.mode {
            ListMode::Keys => listed_keys(
                fs@[btree_id_index(opt.btree) as int],
                opt.start,
                opt.end,
                opt.bkey_type,
            ),
            _ => node_listing(
                fs@[btree_id_index(opt.btree) as int],
                opt.level,
                opt.start,
                opt.end,
                opt.mode,
            ),
        },
{
    match opt.mode {
        ListMode::Keys => list_keys(fs, opt),
        ListMode::Formats => list_btree_formats(fs, opt),
        ListMode::Nodes => list_btree_nodes(fs, opt),
        ListMode::NodesOndisk => list_nodes_ondisk(fs, opt),
    }
}

} // verus!
