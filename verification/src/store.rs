//! The peer center's shared state as the concurrent containers of `dashmap` and
//! `crossbeam` hold it, with what each operation that the server uses does to it.
use vstd::prelude::*;
use crossbeam::atomic::AtomicCell;
use dashmap::DashMap;
use crate::link_order::SrcDstPeerPair;
use crate::rpc::{DirectConnectedPeerInfo, PeerId};

verus! {

#[verifier::external_type_specification]
#[verifier::external_body]
#[verifier::reject_recursive_types(K)]
#[verifier::reject_recursive_types(V)]
#[verifier::reject_recursive_types(S)]
pub struct ExDashMap<K, V, S>(DashMap<K, V, S>);

#[verifier::external_type_specification]
#[verifier::external_body]
#[verifier::reject_recursive_types(T)]
pub struct ExAtomicCell<T>(AtomicCell<T>);

/// The links that peers have reported, by `(source, destination)`.
pub type LinkMap = DashMap<SrcDstPeerPair, PeerCenterInfoEntry>;

/// When each peer last reported.
pub type ReportTimeMap = DashMap<PeerId, u64>;

/// A link as the server keeps it: what its source reported of it, and when.
#[derive(Clone, Copy, Debug, PartialEq, Eq, Structural)]
pub struct PeerCenterInfoEntry {
    pub info: DirectConnectedPeerInfo,
    pub update_time: u64,
}

/// How long, in milliseconds, a report stays valid.
pub const PEER_TIMEOUT_MS: u64 = 180_000;

/// A report made at `reported` is still valid at `now`: less than
/// `PEER_TIMEOUT_MS` has passed (a report from the future is valid).
pub open spec fn spec_is_fresh(now: u64, reported: u64) -> bool {
    now - reported < PEER_TIMEOUT_MS
}

/// Whether a report made at `reported` is still valid at `now`.
pub fn is_fresh(now: u64, reported: u64) -> (r: bool)
    ensures
        r == spec_is_fresh(now, reported),
{
    now < reported || now - reported < PEER_TIMEOUT_MS
}

/// The entries of `m` whose report is still valid at `now`.
pub open spec fn fresh_part<K>(m: Map<K, u64>, now: u64) -> Map<K, u64> {
    m.restrict(Set::new(|k: K| spec_is_fresh(now, m[k])))
}

/// The links of `m` whose report is still valid at `now`.
pub open spec fn fresh_links(
    m: Map<SrcDstPeerPair, PeerCenterInfoEntry>,
    now: u64,
) -> Map<SrcDstPeerPair, PeerCenterInfoEntry> {
    m.restrict(Set::new(|k: SrcDstPeerPair| spec_is_fresh(now, m[k].update_time)))
}

/// The links that a `DashMap` of links holds.
pub uninterp spec fn link_entries(m: LinkMap) -> Map<
    SrcDstPeerPair,
    PeerCenterInfoEntry,
>;

/// The report times that a `DashMap` of report times holds.
pub uninterp spec fn report_times(m: ReportTimeMap) -> Map<PeerId, u64>;

/// The value that an `AtomicCell` holds.
pub uninterp spec fn cell_value(c: AtomicCell<u64>) -> u64;

/// Calls `DashMap::new`. Claimed: the map is empty.
#[verifier::external_body]
pub(crate) fn links_new() -> (m: LinkMap)
    ensures
        (link_entries(m) == Map::<SrcDstPeerPair, PeerCenterInfoEntry>::empty()),
{
    DashMap::new()
}

/// Calls `DashMap::insert`. Claimed: afterwards `key` maps to `value` and every
/// other key is as before. (The value it replaced is dropped.)
#[verifier::external_body]
pub(crate) fn links_insert(
    m: &mut LinkMap,
    key: SrcDstPeerPair,
    value: PeerCenterInfoEntry,
)
    ensures
        link_entries(*final(m)) == link_entries(*old(m)).insert(key, value),
{
    m.insert(key, value);
}

/// Calls `DashMap::retain` with a predicate that keeps an entry exactly when
/// `is_fresh(now, update_time)`. Claimed: afterwards the map holds exactly the
/// entries of before that the predicate kept.
#[verifier::external_body]
pub(crate) fn links_retain_fresh(m: &mut LinkMap, now: u64)
    ensures
        link_entries(*final(m)) == fresh_links(link_entries(*old(m)), now),
{
    m.retain(|_, v| is_fresh(now, v.update_time));
}

/// Calls `DashMap::iter` and copies out each key and value. Claimed: every entry
/// of the map comes out once, nothing else comes out. The order is left open:
/// it follows the map's hashing, which is seeded anew in each process.
#[verifier::external_body]
pub(crate) fn links_snapshot(m: &LinkMap) -> (r: Vec<
    (SrcDstPeerPair, PeerCenterInfoEntry),
>)
    ensures
        forall|i: int, j: int| 0 <= i < j < r@.len() ==> #[trigger] r@[i].0 != #[trigger] r@[j].0,
        forall|i: int|
            0 <= i < r@.len() ==> link_entries(*m).contains_key(#[trigger] r@[i].0)
                && link_entries(*m)[r@[i].0] == r@[i].1,
        forall|k: SrcDstPeerPair| #[trigger]
            link_entries(*m).contains_key(k) ==> exists|i: int| 0 <= i < r@.len() && r@[i].0 == k,
{
    m.iter().map(|e| (*e.key(), *e.value())).collect()
}

/// Calls `DashMap::new`. Claimed: the map is empty.
#[verifier::external_body]
pub(crate) fn times_new() -> (m: ReportTimeMap)
    ensures
        (report_times(m) == Map::<PeerId, u64>::empty()),
{
    DashMap::new()
}

/// Calls `DashMap::insert`. Claimed: afterwards `key` maps to `value` and every
/// other key is as before.
#[verifier::external_body]
pub(crate) fn times_insert(m: &mut ReportTimeMap, key: PeerId, value: u64)
    ensures
        report_times(*final(m)) == report_times(*old(m)).insert(key, value),
{
    m.insert(key, value);
}

/// Calls `DashMap::retain` with a predicate that keeps an entry exactly when
/// `is_fresh(now, time)`. Claimed: afterwards the map holds exactly the entries of
/// before that the predicate kept.
#[verifier::external_body]
pub(crate) fn times_retain_fresh(m: &mut ReportTimeMap, now: u64)
    ensures
        report_times(*final(m)) == fresh_part(report_times(*old(m)), now),
{
    m.retain(|_, v| is_fresh(now, *v));
}

/// Calls `DashMap::get` and copies out the value. Claimed: the value of `key` when
/// the map has it, `None` when it has not.
#[verifier::external_body]
pub(crate) fn times_get(m: &ReportTimeMap, key: PeerId) -> (r: Option<u64>)
    ensures
        r == (if report_times(*m).contains_key(key) {
            Some(report_times(*m)[key])
        } else {
            None::<u64>
        }),
{
    m.get(&key).map(|e| *e.value())
}

/// Calls `AtomicCell::new`. Claimed: the cell holds `value`.
#[verifier::external_body]
pub(crate) fn cell_new(value: u64) -> (c: AtomicCell<u64>)
    ensures
        cell_value(c) == value,
{
    AtomicCell::new(value)
}

/// Calls `AtomicCell::store`. Claimed: afterwards the cell holds `value`.
#[verifier::external_body]
pub(crate) fn cell_store(c: &mut AtomicCell<u64>, value: u64)
    ensures
        cell_value(*final(c)) == value,
{
    c.store(value);
}

/// Calls `AtomicCell::load`. Claimed: the result is the value the cell holds.
#[verifier::external_body]
pub(crate) fn cell_load(c: &AtomicCell<u64>) -> (r: u64)
    ensures
        r == cell_value(*c),
{
    c.load()
}

} // verus!
