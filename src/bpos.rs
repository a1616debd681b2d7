//! Positions in the key space, their order, and their text form.
use vstd::prelude::*;
use core::cmp::Ordering;
use crate::errcode::BchToolsErr;
use crate::text::{
    chars_eq, dec, is_digit, is_numeral, lemma_dec_numeral, lemma_numeral_no_sep,
    lemma_split_append_plain, lemma_split_append_sep, numeral_value, parse_u64,
    push_dec, push_str, split, split_fields, str_chars,
};

verus! {

/// A position in the key space: inode, then offset, then snapshot.
#[derive(Clone, Copy, Debug, PartialEq, Eq, Structural, Hash, PartialOrd, Ord)]
pub struct Bpos {
    pub inode: u64,
    pub offset: u64,
    pub snapshot: u32,
}

/// Builds the position `(inode, offset, snapshot)`.
pub fn spos(inode: u64, offset: u64, snapshot: u32) -> (r: Bpos)
    ensures
        r == (Bpos { inode, offset, snapshot }),
{
    Bpos { inode, offset, snapshot }
}

/// Builds the position `(inode, offset)` in snapshot 0.
pub fn pos(inode: u64, offset: u64) -> (r: Bpos)
    ensures
        r == (Bpos { inode, offset, snapshot: 0 }),
{
    spos(inode, offset, 0)
}

pub open spec fn pos_min_spec() -> Bpos {
    Bpos { inode: 0, offset: 0, snapshot: 0 }
}

pub open spec fn pos_max_spec() -> Bpos {
    Bpos { inode: u64::MAX, offset: u64::MAX, snapshot: 0 }
}

pub open spec fn spos_max_spec() -> Bpos {
    Bpos { inode: u64::MAX, offset: u64::MAX, snapshot: u32::MAX }
}

/// The smallest position, `(0, 0, 0)`.
#[verifier::when_used_as_spec(pos_min_spec)]
pub fn pos_min() -> (r: Bpos)
    ensures
        r == pos_min_spec(),
{
    Bpos { inode: 0, offset: 0, snapshot: 0 }
}

/// The largest position in snapshot 0.
#[verifier::when_used_as_spec(pos_max_spec)]
pub fn pos_max() -> (r: Bpos)
    ensures
        r == pos_max_spec(),
{
    Bpos { inode: u64::MAX, offset: u64::MAX, snapshot: 0 }
}

/// The largest position of all, above every snapshot.
#[verifier::when_used_as_spec(spos_max_spec)]
pub fn spos_max() -> (r: Bpos)
    ensures
        r == spos_max_spec(),
{
    Bpos { inode: u64::MAX, offset: u64::MAX, snapshot: u32::MAX }
}

/// `a` comes strictly before `b`: by inode, then offset, then snapshot.
pub open spec fn bpos_lt(a: Bpos, b: Bpos) -> bool {
    a.inode < b.inode || (a.inode == b.inode && (a.offset < b.offset || (a.offset == b.offset
        && a.snapshot < b.snapshot)))
}

pub open spec fn bpos_le(a: Bpos, b: Bpos) -> bool {
    bpos_lt(a, b) || a == b
}

/// Compares two positions by inode, then offset, then snapshot.
pub fn bpos_cmp(l: &Bpos, r: &Bpos) -> (o: Ordering)
    ensures
        (o == Ordering::Less) == bpos_lt(*l, *r),
        (o == Ordering::Equal) == (*l == *r),
        (o == Ordering::Greater) == bpos_lt(*r, *l),
{
    if l.inode != r.inode {
        if l.inode < r.inode {
            Ordering::Less
        } else {
            Ordering::Greater
        }
    } else if l.offset != r.offset {
        if l.offset < r.offset {
            Ordering::Less
        } else {
            Ordering::Greater
        }
    } else if l.snapshot != r.snapshot {
        if l.snapshot < r.snapshot {
            Ordering::Less
        } else {
            Ordering::Greater
        }
    } else {
        Ordering::Equal
    }
}

/// Whether `l` comes strictly before `r`.
pub fn bpos_less(l: &Bpos, r: &Bpos) -> (b: bool)
    ensures
        b == bpos_lt(*l, *r),
{
    l.inode < r.inode || (l.inode == r.inode && (l.offset < r.offset || (l.offset == r.offset
        && l.snapshot < r.snapshot)))
}

/// The position right after `p`, counting snapshots; none after `spos_max()`.
pub open spec fn successor_spec(p: Bpos) -> Bpos {
    if p.snapshot < u32::MAX {
        Bpos { snapshot: (p.snapshot + 1) as u32, ..p }
    } else if p.offset < u64::MAX {
        Bpos { inode: p.inode, offset: (p.offset + 1) as u64, snapshot: 0 }
    } else {
        Bpos { inode: (p.inode + 1) as u64, offset: 0, snapshot: 0 }
    }
}

/// The position right after `p`.
pub fn bpos_successor(p: Bpos) -> (r: Bpos)
    requires
        p != spos_max(),
    ensures
        r == successor_spec(p),
        bpos_lt(p, r),
        forall|q: Bpos| bpos_lt(p, q) <==> bpos_le(r, q),
{
    if p.snapshot < u32::MAX {
        Bpos { snapshot: p.snapshot + 1, ..p }
    } else if p.offset < u64::MAX {
        Bpos { inode: p.inode, offset: p.offset + 1, snapshot: 0 }
    } else {
        Bpos { inode: p.inode + 1, offset: 0, snapshot: 0 }
    }
}

/// Nothing lies strictly between `p` and its successor.
pub proof fn lemma_successor(p: Bpos)
    requires
        p != spos_max(),
    ensures
        bpos_lt(p, successor_spec(p)),
        forall|q: Bpos| bpos_lt(p, q) <==> bpos_le(successor_spec(p), q),
{
}

/// Every position lies between `pos_min()` and `spos_max()`.
pub proof fn lemma_bpos_bounds(p: Bpos)
    ensures
        bpos_le(pos_min(), p),
        bpos_le(p, spos_max()),
{
}

/// The text of a position: `inode:offset`, followed by `:snapshot` when the
/// snapshot is not 0.
pub open spec fn bpos_text(p: Bpos) -> Seq<char> {
    if p.snapshot == 0 {
        dec(p.inode as nat) + seq![':'] + dec(p.offset as nat)
    } else {
        dec(p.inode as nat) + seq![':'] + dec(p.offset as nat) + seq![':'] + dec(
            p.snapshot as nat,
        )
    }
}

/// Renders `p` as text.
pub fn bpos_to_text(p: &Bpos) -> (r: String)
    ensures
        r@ == bpos_text(*p),
{
    proof {
        reveal_strlit(":");
    }
    let mut out = String::new();
    push_dec(&mut out, p.inode);
    push_str(&mut out, ":");
    push_dec(&mut out, p.offset);
    if p.snapshot != 0 {
        push_str(&mut out, ":");
        push_dec(&mut out, p.snapshot as u64);
    }
    assert(out@ =~= bpos_text(*p));
    out
}

/// What parsing `s` as a position gives: one of the three sentinel names, or
/// `inode:offset` or `inode:offset:snapshot` in decimal.
pub open spec fn bpos_parse_spec(s: Seq<char>) -> Result<Bpos, BchToolsErr> {
    let f = split(s, ':');
    if s == "POS_MIN"@ {
        Ok(pos_min())
    } else if s == "POS_MAX"@ {
        Ok(pos_max())
    } else if s == "SPOS_MAX"@ {
        Ok(spos_max())
    } else if (f.len() == 2 || f.len() == 3) && is_numeral(f[0]) && numeral_value(f[0])
        <= u64::MAX && is_numeral(f[1]) && numeral_value(f[1]) <= u64::MAX && (f.len() == 2 || (
    is_numeral(f[2]) && numeral_value(f[2]) <= u32::MAX)) {
        Ok(
            Bpos {
                inode: numeral_value(f[0]) as u64,
                offset: numeral_value(f[1]) as u64,
                snapshot: if f.len() == 3 {
                    numeral_value(f[2]) as u32
                } else {
                    0
                },
            },
        )
    } else {
        Err(BchToolsErr::InvalidBpos)
    }
}

/// Parses a position from text; see `bpos_parse_spec`.
pub fn bpos_from_str(s: &str) -> (r: Result<Bpos, BchToolsErr>)
    ensures
        r == bpos_parse_spec(s@),
{
    let cs = str_chars(s);
    if chars_eq(&cs, "POS_MIN") {
        return Ok(pos_min());
    }
    if chars_eq(&cs, "POS_MAX") {
        return Ok(pos_max());
    }
    if chars_eq(&cs, "SPOS_MAX") {
        return Ok(spos_max());
    }
    let fields = split_fields(&cs, ':');
    if fields.len() != 2 && fields.len() != 3 {
        return Err(BchToolsErr::InvalidBpos);
    }
    let ino = match parse_u64(&fields[0]) {
        Some(v) => v,
        None => return Err(BchToolsErr::InvalidBpos),
    };
    let off = match parse_u64(&fields[1]) {
        Some(v) => v,
        None => return Err(BchToolsErr::InvalidBpos),
    };
    let mut snp: u32 = 0;
    if fields.len() == 3 {
        match parse_u64(&fields[2]) {
            Some(v) => {
                if v > u32::MAX as u64 {
                    return Err(BchToolsErr::InvalidBpos);
                }
                snp = v as u32;
            },
            None => return Err(BchToolsErr::InvalidBpos),
        }
    }
    Ok(Bpos { inode: ino, offset: off, snapshot: snp })
}

/// Parsing the text of a position gives that position back.
pub proof fn lemma_bpos_text_round_trip(p: Bpos)
    ensures
        bpos_parse_spec(bpos_text(p)) == Ok::<Bpos, BchToolsErr>(p),
{
    let t = bpos_text(p);
    let a = dec(p.inode as nat);
    let b = dec(p.offset as nat);
    let c = dec(p.snapshot as nat);
    lemma_dec_numeral(p.inode as nat);
    lemma_dec_numeral(p.offset as nat);
    lemma_dec_numeral(p.snapshot as nat);
    assert(!is_digit(':'));
    lemma_numeral_no_sep(a, ':');
    lemma_numeral_no_sep(b, ':');
    lemma_numeral_no_sep(c, ':');
    let e = Seq::<char>::empty();
    lemma_split_append_plain(e, a, ':');
    assert(e + a =~= a);
    assert(split(e, ':') =~= seq![e]);
    assert(split(a, ':') =~= seq![a]);
    lemma_split_append_sep(a, ':');
    lemma_split_append_plain(a + seq![':'], b, ':');
    let ab = a + seq![':'] + b;
    assert(split(ab, ':') =~= seq![a, b]);
    if p.snapshot != 0 {
        lemma_split_append_sep(ab, ':');
        lemma_split_append_plain(ab + seq![':'], c, ':');
        assert(split(t, ':') =~= seq![a, b, c]);
    }
    reveal_strlit("POS_MIN");
    reveal_strlit("POS_MAX");
    reveal_strlit("SPOS_MAX");
    assert(is_digit(t[0]));
    assert(t != "POS_MIN"@ && t != "POS_MAX"@ && t != "SPOS_MAX"@) by {
        assert(!is_digit("POS_MIN"@[0]));
        assert(!is_digit("POS_MAX"@[0]));
        assert(!is_digit("SPOS_MAX"@[0]));
    }
}

impl core::str::FromStr for Bpos {
    type Err = BchToolsErr;

    fn from_str(s: &str) -> Result<Bpos, BchToolsErr> {
        bpos_from_str(s)
    }
}

} // verus!
