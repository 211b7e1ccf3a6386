//! The `rustc_hash::FxHashMap` operations that the library relies on.
//!
//! `FxHashMap<K, V>` is std's `HashMap` built with `FxBuildHasher`, a unit
//! struct whose every `build_hasher` call returns the same unseeded
//! `FxHasher`. The key types used here (`u32` and a tuple of integers) have
//! the `Eq` and `Hash` impls that std provides, so equal keys hash alike and
//! the map behaves as a finite map over its keys. vstd specifies `HashMap`
//! only for hash builders it knows, which `FxBuildHasher` is not; the few
//! calls below are therefore trusted, each with the contract that std
//! documents for the method.
use crate::flow::ProcessEntry;
use rustc_hash::{FxBuildHasher, FxHashMap};
use vstd::prelude::*;

verus! {

/// The hash builder of `FxHashMap` (a unit struct of rustc-hash).
#[verifier::external_type_specification]
#[verifier::external_body]
pub struct ExFxBuildHasher(FxBuildHasher);

/// Key of a connection index: local address, local port, remote address,
/// remote port (IPv4 addresses are widened to `u128`).
pub type ConnTuple = (u128, u16, u128, u16);

/// `HashMap::insert` on a connection index: afterwards `key` is bound to
/// `pid`, every other binding is unchanged.
#[verifier::external_body]
pub(crate) fn conn_index_insert(m: &mut FxHashMap<ConnTuple, u32>, key: ConnTuple, pid: u32)
    ensures
        final(m)@ == old(m)@.insert(key, pid),
{
    m.insert(key, pid);
}

/// `HashMap::get` on a connection index, copied out: the pid bound to
/// `key`, or `None` when the key is absent.
#[verifier::external_body]
pub(crate) fn conn_index_get(m: &FxHashMap<ConnTuple, u32>, key: &ConnTuple) -> (r: Option<u32>)
    ensures
        r == m@.get(*key),
{
    m.get(key).copied()
}

/// `HashMap::get` on the per-process entries: a reference to the entry
/// bound to `pid`, or `None` when there is none.
#[verifier::external_body]
pub(crate) fn entry_get(m: &FxHashMap<u32, ProcessEntry>, pid: u32) -> (r: Option<&ProcessEntry>)
    ensures
        match r {
            Some(e) => m@.contains_key(pid) && *e == m@[pid],
            None => !m@.contains_key(pid),
        },
{
    m.get(&pid)
}

/// `HashMap::insert` on the per-process entries: afterwards `pid` is bound
/// to `e`, every other binding is unchanged.
#[verifier::external_body]
pub(crate) fn entry_insert(m: &mut FxHashMap<u32, ProcessEntry>, pid: u32, e: ProcessEntry)
    ensures
        final(m)@ == old(m)@.insert(pid, e),
{
    m.insert(pid, e);
}

/// `HashMap::remove` on the per-process entries: the binding of `pid` is
/// taken out and handed back.
#[verifier::external_body]
pub(crate) fn entry_remove(m: &mut FxHashMap<u32, ProcessEntry>, pid: u32) -> (r: Option<ProcessEntry>)
    ensures
        final(m)@ == old(m)@.remove(pid),
        r == old(m)@.get(pid),
{
    m.remove(&pid)
}

/// `HashMap::keys` on the per-process entries, copied into a `Vec`: every
/// key exactly once, in the map's walk order (which nothing here states).
#[verifier::external_body]
pub(crate) fn entry_pids(m: &FxHashMap<u32, ProcessEntry>) -> (r: Vec<u32>)
    ensures
        r@.no_duplicates(),
        r@.to_set() == m@.dom(),
{
    m.keys().copied().collect()
}

} // verus!
