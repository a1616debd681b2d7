//! A transactional cursor protocol over the sorted key space of a
//! copy-on-write filesystem: positions, typed keys, transactions, key and node
//! cursors with restart handling, text rendering, and listings built on them.
use vstd::prelude::*;

pub mod bkey;
pub mod bpos;
pub mod btree;
pub mod btree_id;
pub mod errcode;
pub mod ioctl;
pub mod key;
pub mod list;
pub mod mount;
pub mod printbuf;
pub mod text;

verus! {

} // verus!
