//! The peer center: every peer reports its direct connections, the server keeps
//! the links of all peers with the time of their report, forgets those not
//! reported again within `PEER_TIMEOUT_MS`, and hands the whole map to any peer
//! whose copy is out of date, which it tells by a digest of the map's links.
use vstd::prelude::*;
use crossbeam::atomic::AtomicCell;
use std::collections::HashMap;
use crate::digest::{Digest, digest_of_links, spec_global_digest};
use crate::link_order::SrcDstPeerPair;
use crate::rpc::{
    DirectConnectedPeerInfo, GetGlobalPeerMapRequest, GetGlobalPeerMapResponse, PeerId,
    GlobalPeerMap, PeerInfoForGlobalMap, ReportPeersRequest, ReportPeersResponse,
};
use crate::store::{
    LinkMap, PEER_TIMEOUT_MS, PeerCenterInfoEntry, ReportTimeMap, cell_load, cell_new, cell_store, cell_value,
    fresh_links, fresh_part, link_entries, links_insert, links_new, links_retain_fresh,
    links_snapshot, report_times, times_get, times_insert, times_new, times_retain_fresh,
};

verus! {

broadcast use vstd::std_specs::hash::group_hash_axioms;

/// The direct connections that `req` reports (none when it carries no peer info).
pub open spec fn reported_peers(req: ReportPeersRequest) -> Map<PeerId, DirectConnectedPeerInfo> {
    match req.peer_infos {
        Some(p) => p.direct_peers@,
        None => Map::empty(),
    }
}

/// The links that a report of `peers` by `my` at `now` makes: from `my` to each
/// reported peer, with what was reported of it and the time of the report.
pub open spec fn report_links(
    my: PeerId,
    peers: Map<PeerId, DirectConnectedPeerInfo>,
    now: u64,
) -> Map<SrcDstPeerPair, PeerCenterInfoEntry> {
    Map::new(
        |k: SrcDstPeerPair| k.0 == my && peers.contains_key(k.1),
        |k: SrcDstPeerPair| PeerCenterInfoEntry { info: peers[k.1], update_time: now },
    )
}

/// The links after a report of `peers` by `my` at `now`: the reported links are
/// set, every other link stays as it was (links of `my` that the report leaves out
/// included).
pub open spec fn apply_report(
    links: Map<SrcDstPeerPair, PeerCenterInfoEntry>,
    my: PeerId,
    peers: Map<PeerId, DirectConnectedPeerInfo>,
    now: u64,
) -> Map<SrcDstPeerPair, PeerCenterInfoEntry> {
    links.union_prefer_right(report_links(my, peers, now))
}

/// The links grouped by source: for each source that has a link, what was
/// reported of each of its destinations.
pub open spec fn grouped_links(links: Map<SrcDstPeerPair, PeerCenterInfoEntry>) -> Map<
    PeerId,
    Map<PeerId, DirectConnectedPeerInfo>,
> {
    Map::new(
        |src: PeerId| exists|dst: PeerId| links.contains_key((src, dst)),
        |src: PeerId|
            Map::new(
                |dst: PeerId| links.contains_key((src, dst)),
                |dst: PeerId| links[(src, dst)].info,
            ),
    )
}

/// `out` holds, for each source of `g`, a peer info whose direct peers are `g`'s
/// for that source, and nothing for other peers.
pub open spec fn matches_grouped(
    out: Map<PeerId, PeerInfoForGlobalMap>,
    g: Map<PeerId, Map<PeerId, DirectConnectedPeerInfo>>,
) -> bool {
    &&& out.dom() == g.dom()
    &&& forall|src: PeerId| #[trigger] out.contains_key(src) ==> out[src].direct_peers@ == g[src]
}

/// The links of `entries[0..i]`.
spec fn keys_before(entries: Seq<(SrcDstPeerPair, PeerCenterInfoEntry)>, i: int) -> Set<
    SrcDstPeerPair,
> {
    Set::new(|k: SrcDstPeerPair| exists|j: int| 0 <= j < i && #[trigger] entries[j].0 == k)
}

proof fn lemma_grouped_insert(
    links: Map<SrcDstPeerPair, PeerCenterInfoEntry>,
    src: PeerId,
    dst: PeerId,
    e: PeerCenterInfoEntry,
)
    ensures
        grouped_links(links.insert((src, dst), e)) == grouped_links(links).insert(
            src,
            (if grouped_links(links).contains_key(src) {
                grouped_links(links)[src]
            } else {
                Map::empty()
            }).insert(dst, e.info),
        ),
{
    let g0 = grouped_links(links);
    let l1 = links.insert((src, dst), e);
    let g1 = grouped_links(l1);
    let inner = (if g0.contains_key(src) {
        g0[src]
    } else {
        Map::empty()
    }).insert(dst, e.info);
    let rhs = g0.insert(src, inner);
    assert(l1.contains_key((src, dst)));
    assert forall|s: PeerId| g1.contains_key(s) <==> rhs.contains_key(s) by {
        if g1.contains_key(s) && s != src {
            let d = choose|d: PeerId| l1.contains_key((s, d));
            assert(links.contains_key((s, d)));
        }
        if rhs.contains_key(s) && s != src {
            let d = choose|d: PeerId| links.contains_key((s, d));
            assert(l1.contains_key((s, d)));
        }
    }
    assert forall|s: PeerId| g1.contains_key(s) implies g1[s] == rhs[s] by {
        if s == src {
            assert(g1[s] =~= inner);
        } else {
            assert(g1[s] =~= g0[s]);
        }
    }
    assert(g1 =~= rhs);
}

/// The state of one node's peer center.
pub struct PeerCenterServerGlobalData {
    global_peer_map: LinkMap,
    peer_report_time: ReportTimeMap,
    digest: AtomicCell<Digest>,
}

/// What the peer center holds: the links, when each peer last reported, and the
/// digest stored at the last report.
pub struct GlobalDataView {
    pub links: Map<SrcDstPeerPair, PeerCenterInfoEntry>,
    pub report_times: Map<PeerId, u64>,
    pub digest: Digest,
}

impl View for PeerCenterServerGlobalData {
    type V = GlobalDataView;

    closed spec fn view(&self) -> GlobalDataView {
        GlobalDataView {
            links: link_entries(self.global_peer_map),
            report_times: report_times(self.peer_report_time),
            digest: cell_value(self.digest),
        }
    }
}

impl PeerCenterServerGlobalData {
    /// A peer center that knows of no link and holds the digest 0.
    pub fn new() -> (r: PeerCenterServerGlobalData)
        ensures
            r@.links == Map::<SrcDstPeerPair, PeerCenterInfoEntry>::empty(),
            r@.report_times == Map::<PeerId, u64>::empty(),
            r@.digest == 0,
    {
        PeerCenterServerGlobalData {
            global_peer_map: links_new(),
            peer_report_time: times_new(),
            digest: cell_new(0),
        }
    }

    /// The digest of the links the peer center holds now.
    pub fn calc_global_digest(&self) -> (r: Digest)
        ensures
            r == spec_global_digest(self@.links.dom()),
    {
        let entries = links_snapshot(&self.global_peer_map);
        let mut keys: Vec<SrcDstPeerPair> = Vec::new();
        let mut i: usize = 0;
        while i < entries.len()
            invariant
                i <= entries.len(),
                keys@.len() == i,
                forall|j: int| 0 <= j < i ==> #[trigger] keys@[j] == entries@[j].0,
            decreases entries.len() - i,
        {
            keys.push(entries[i].0);
            i = i + 1;
        }
        assert(keys@.no_duplicates()) by {
            assert forall|a: int, b: int| 0 <= a < keys@.len() && 0 <= b < keys@.len() && a != b
                implies keys@[a] != keys@[b] by {
                if a < b {
                    assert(entries@[a].0 != entries@[b].0);
                } else {
                    assert(entries@[b].0 != entries@[a].0);
                }
            }
        }
        assert(keys@.to_set() =~= self@.links.dom()) by {
            assert forall|k: SrcDstPeerPair| self@.links.dom().contains(k) implies keys@.contains(
                k,
            ) by {
                let j = choose|j: int| 0 <= j < entries@.len() && entries@[j].0 == k;
                assert(keys@[j] == k);
            }
            assert forall|k: SrcDstPeerPair| keys@.contains(k) implies self@.links.dom().contains(
                k,
            ) by {
                let j = choose|j: int| 0 <= j < keys@.len() && keys@[j] == k;
                assert(entries@[j].0 == k);
            }
        }
        digest_of_links(&keys)
    }

    /// Forgets every link and report time whose report is no longer valid at `now`;
    /// the stored digest is left as it is.
    pub fn clean_outdated_peer(&mut self, now: u64)
        ensures
            final(self)@.links == fresh_links(old(self)@.links, now),
            final(self)@.report_times == fresh_part(old(self)@.report_times, now),
            final(self)@.digest == old(self)@.digest,
    {
        times_retain_fresh(&mut self.peer_report_time, now);
        links_retain_fresh(&mut self.global_peer_map, now);
    }

    /// Records a report by `req.my_peer_id` made at `now`: its report time, and a
    /// link to each peer it reports; then stores the digest of the links.
    pub fn report_peers(&mut self, req: ReportPeersRequest, now: u64) -> (r: ReportPeersResponse)
        ensures
            final(self)@.report_times == old(self)@.report_times.insert(req.my_peer_id, now),
            final(self)@.links == apply_report(
                old(self)@.links,
                req.my_peer_id,
                reported_peers(req),
                now,
            ),
            final(self)@.digest == spec_global_digest(final(self)@.links.dom()),
            forall|k: SrcDstPeerPair|
                #[trigger] old(self)@.links.contains_key(k) && !(k.0 == req.my_peer_id
                    && reported_peers(req).contains_key(k.1)) ==> final(self)@.links.contains_key(k)
                    && final(self)@.links[k] == old(self)@.links[k],
            forall|d: PeerId|
                #[trigger] reported_peers(req).contains_key(d) ==> final(self)@.links.contains_key(
                    (req.my_peer_id, d),
                ) && final(self)@.links[(req.my_peer_id, d)] == (PeerCenterInfoEntry {
                    info: reported_peers(req)[d],
                    update_time: now,
                }),
            forall|k: SrcDstPeerPair| #[trigger]
                final(self)@.links.contains_key(k) ==> old(self)@.links.contains_key(k) || (k.0
                    == req.my_peer_id && reported_peers(req).contains_key(k.1)),
            r == (ReportPeersResponse {  }),
    {
        let my_peer_id = req.my_peer_id;
        times_insert(&mut self.peer_report_time, my_peer_id, now);
        let ghost links0 = self@.links;
        match &req.peer_infos {
            Some(p) => {
                let peers = &p.direct_peers;
                let ghost pm = peers@;
                assert(report_links(my_peer_id, pm.restrict(Set::empty()), now) =~= Map::empty());
                assert(links0.union_prefer_right(Map::empty()) =~= links0);
                for item in it: peers.iter()
                    invariant
                        pm == peers@,
                        self@.report_times == old(self)@.report_times.insert(my_peer_id, now),
                        self@.links == apply_report(
                            links0,
                            my_peer_id,
                            pm.restrict(Set::new(|k: PeerId| exists|j: int| 0 <= j < it.index() && *it.seq()[j].0 == k)),
                            now,
                        ),
                {
                    let (peer_id, info) = item;
                    let entry = PeerCenterInfoEntry { info: *info, update_time: now };
                    links_insert(&mut self.global_peer_map, (my_peer_id, *peer_id), entry);
                }
            },
            None => {
                assert(report_links(my_peer_id, Map::empty(), now) =~= Map::empty());
                assert(links0.union_prefer_right(Map::empty()) =~= links0);
            },
        }
        let digest = self.calc_global_digest();
        cell_store(&mut self.digest, digest);
        ReportPeersResponse {  }
    }

    /// Answers a request for the global peer map. When the request's digest is the
    /// stored one and not 0, the asking peer is up to date and gets neither map nor
    /// digest; otherwise it gets every link grouped by source, and the stored digest.
    pub fn get_global_peer_map(&self, req: GetGlobalPeerMapRequest) -> (r:
        GetGlobalPeerMapResponse)
        ensures
            (req.digest == self@.digest && req.digest != 0) ==> (r.global_peer_map@ == Map::<
                PeerId,
                PeerInfoForGlobalMap,
            >::empty() && r.digest is None),
            !(req.digest == self@.digest && req.digest != 0) ==> (r.digest == Some(self@.digest)
                && matches_grouped(r.global_peer_map@, grouped_links(self@.links))),
    {
        let digest = req.digest;
        if digest == cell_load(&self.digest) && digest != 0 {
            return GetGlobalPeerMapResponse::empty();
        }
        let mut global_peer_map = GlobalPeerMap::new();
        let entries = links_snapshot(&self.global_peer_map);
        let ghost links = self@.links;
        assert(links.restrict(keys_before(entries@, 0)) =~= Map::empty());
        assert(grouped_links(Map::<SrcDstPeerPair, PeerCenterInfoEntry>::empty()) =~= Map::empty());
        let mut i: usize = 0;
        while i < entries.len()
            invariant
                i <= entries.len(),
                links == self@.links,
                forall|a: int, b: int|
                    0 <= a < b < entries@.len() ==> #[trigger] entries@[a].0
                        != #[trigger] entries@[b].0,
                forall|a: int|
                    0 <= a < entries@.len() ==> links.contains_key(#[trigger] entries@[a].0)
                        && links[entries@[a].0] == entries@[a].1,
                matches_grouped(
                    global_peer_map.map@,
                    grouped_links(links.restrict(keys_before(entries@, i as int))),
                ),
            decreases entries.len() - i,
        {
            let (pair, entry) = entries[i];
            let ghost before = links.restrict(keys_before(entries@, i as int));
            let ghost g0 = grouped_links(before);
            let mut peer_info = match global_peer_map.map.remove(&pair.0) {
                Some(p) => p,
                None => PeerInfoForGlobalMap::new(),
            };
            assert(peer_info.direct_peers@ == (if g0.contains_key(pair.0) {
                g0[pair.0]
            } else {
                Map::empty()
            }));
            peer_info.direct_peers.insert(pair.1, entry.info);
            global_peer_map.map.insert(pair.0, peer_info);
            proof {
                lemma_grouped_insert(before, pair.0, pair.1, entry);
                assert(links.restrict(keys_before(entries@, i + 1)) =~= before.insert(pair, entry))
                    by {
                    assert(entries@[i as int].0 == pair);
                    assert forall|k: SrcDstPeerPair| keys_before(entries@, i + 1).contains(k) <==> (
                    keys_before(entries@, i as int).contains(k) || k == pair) by {
                        if keys_before(entries@, i + 1).contains(k) {
                            let j = choose|j: int| 0 <= j < i + 1 && #[trigger] entries@[j].0 == k;
                            if j < i {
                                assert(keys_before(entries@, i as int).contains(k));
                            }
                        }
                        if keys_before(entries@, i as int).contains(k) {
                            let j = choose|j: int| 0 <= j < i && #[trigger] entries@[j].0 == k;
                            assert(keys_before(entries@, i + 1).contains(k));
                        }
                    }
                }
                let g1 = grouped_links(before.insert(pair, entry));
                assert(global_peer_map.map@.dom() =~= g1.dom());
            }
            i = i + 1;
        }
        proof {
            assert(keys_before(entries@, i as int) =~= links.dom()) by {
                assert forall|k: SrcDstPeerPair| #[trigger] links.dom().contains(k) implies keys_before(
                    entries@,
                    i as int,
                ).contains(k) by {
                    let j = choose|j: int| 0 <= j < entries@.len() && entries@[j].0 == k;
                }
            }
            assert(links.restrict(links.dom()) =~= links);
        }
        GetGlobalPeerMapResponse {
            global_peer_map: global_peer_map.map,
            digest: Some(cell_load(&self.digest)),
        }
    }

    /// When `peer` last reported, if it has a report that is kept.
    pub fn last_report_time(&self, peer: PeerId) -> (r: Option<u64>)
        ensures
            r == (if self@.report_times.contains_key(peer) {
                Some(self@.report_times[peer])
            } else {
                None::<u64>
            }),
    {
        times_get(&self.peer_report_time, peer)
    }

    /// The digest stored at the last report (0 before the first).
    pub fn current_digest(&self) -> (r: Digest)
        ensures
            r == self@.digest,
    {
        cell_load(&self.digest)
    }
}

impl Default for PeerCenterServerGlobalData {
    fn default() -> (r: PeerCenterServerGlobalData)
        ensures
            r@.links == Map::<SrcDstPeerPair, PeerCenterInfoEntry>::empty(),
            r@.report_times == Map::<PeerId, u64>::empty(),
            r@.digest == 0,
    {
        PeerCenterServerGlobalData::new()
    }
}

/// What a peer reports can be read back: after a report of `peers` by `my`, the
/// global map has an entry for `my` (when it reports at least one peer), and under
/// it each reported peer with exactly what was reported of it.
pub proof fn law_report_then_query(
    links: Map<SrcDstPeerPair, PeerCenterInfoEntry>,
    my: PeerId,
    peers: Map<PeerId, DirectConnectedPeerInfo>,
    now: u64,
    dst: PeerId,
)
    requires
        peers.contains_key(dst),
    ensures
        grouped_links(apply_report(links, my, peers, now)).contains_key(my),
        grouped_links(apply_report(links, my, peers, now))[my].contains_key(dst),
        grouped_links(apply_report(links, my, peers, now))[my][dst] == peers[dst],
{
    let l1 = apply_report(links, my, peers, now);
    assert(report_links(my, peers, now).contains_key((my, dst)));
    assert(l1.contains_key((my, dst)));
}

/// A report sets links of the reporting peer only, and removes none: every link
/// of before is still there, and one whose source is another peer is unchanged.
pub proof fn law_report_keeps_other_links(
    links: Map<SrcDstPeerPair, PeerCenterInfoEntry>,
    my: PeerId,
    peers: Map<PeerId, DirectConnectedPeerInfo>,
    now: u64,
    k: SrcDstPeerPair,
)
    requires
        links.contains_key(k),
    ensures
        apply_report(links, my, peers, now).contains_key(k),
        k.0 != my ==> apply_report(links, my, peers, now)[k] == links[k],
{
}

/// Reporting the same peers twice at the same time leaves the links as one report
/// does.
pub proof fn law_report_idempotent(
    links: Map<SrcDstPeerPair, PeerCenterInfoEntry>,
    my: PeerId,
    peers: Map<PeerId, DirectConnectedPeerInfo>,
    now: u64,
)
    ensures
        apply_report(apply_report(links, my, peers, now), my, peers, now) == apply_report(
            links,
            my,
            peers,
            now,
        ),
{
    assert(apply_report(apply_report(links, my, peers, now), my, peers, now) =~= apply_report(
        links,
        my,
        peers,
        now,
    ));
}

/// A link reported at `now` is kept by a cleanup at any `later` time less than
/// `PEER_TIMEOUT_MS` after it, and dropped by one at `PEER_TIMEOUT_MS` or more.
pub proof fn law_report_survives_cleanup_until_timeout(
    links: Map<SrcDstPeerPair, PeerCenterInfoEntry>,
    my: PeerId,
    peers: Map<PeerId, DirectConnectedPeerInfo>,
    now: u64,
    later: u64,
    dst: PeerId,
)
    requires
        peers.contains_key(dst),
    ensures
        later - now < PEER_TIMEOUT_MS ==> fresh_links(apply_report(links, my, peers, now), later)
            .contains_key((my, dst)) && fresh_links(apply_report(links, my, peers, now), later)[(
        my,
        dst,
    )] == (PeerCenterInfoEntry { info: peers[dst], update_time: now }),
        later - now >= PEER_TIMEOUT_MS ==> !fresh_links(
            apply_report(links, my, peers, now),
            later,
        ).contains_key((my, dst)),
{
    assert(report_links(my, peers, now).contains_key((my, dst)));
}

/// Cleaning up twice at the same time is cleaning up once.
pub proof fn law_cleanup_idempotent(
    links: Map<SrcDstPeerPair, PeerCenterInfoEntry>,
    times: Map<PeerId, u64>,
    now: u64,
)
    ensures
        fresh_links(fresh_links(links, now), now) == fresh_links(links, now),
        fresh_part(fresh_part(times, now), now) == fresh_part(times, now),
{
    assert(fresh_links(fresh_links(links, now), now) =~= fresh_links(links, now));
    assert(fresh_part(fresh_part(times, now), now) =~= fresh_part(times, now));
}

/// What a report does to the links, in full: each reported peer `d` gets the link
/// `(my, d)` with what was reported of it and the report's time; every other link
/// (links of `my` that the report leaves out included) stays exactly as it was,
/// its update time too; and no other link appears.
pub proof fn law_apply_report_exact(
    links: Map<SrcDstPeerPair, PeerCenterInfoEntry>,
    my: PeerId,
    peers: Map<PeerId, DirectConnectedPeerInfo>,
    now: u64,
    k: SrcDstPeerPair,
)
    ensures
        (k.0 == my && peers.contains_key(k.1)) ==> apply_report(links, my, peers, now).contains_key(
            k,
        ) && apply_report(links, my, peers, now)[k].info == peers[k.1] && apply_report(
            links,
            my,
            peers,
            now,
        )[k].update_time == now,
        (links.contains_key(k) && !(k.0 == my && peers.contains_key(k.1))) ==> apply_report(
            links,
            my,
            peers,
            now,
        ).contains_key(k) && apply_report(links, my, peers, now)[k] == links[k],
        apply_report(links, my, peers, now).contains_key(k) <==> (links.contains_key(k) || (k.0
            == my && peers.contains_key(k.1))),
{
}

/// The global map lists exactly the links: a source `s` has destination `d` in it
/// exactly when the link `(s, d)` is held, with what was reported of that link.
pub proof fn law_grouped_links_exact(
    links: Map<SrcDstPeerPair, PeerCenterInfoEntry>,
    s: PeerId,
    d: PeerId,
)
    ensures
        (grouped_links(links).contains_key(s) && grouped_links(links)[s].contains_key(d))
            <==> links.contains_key((s, d)),
        links.contains_key((s, d)) ==> grouped_links(links)[s][d] == links[(s, d)].info,
{
}

/// A cleanup at `now` keeps a link exactly when its report is less than
/// `PEER_TIMEOUT_MS` milliseconds older than `now` (or newer), and keeps it
/// unchanged.
pub proof fn law_fresh_links_exact(
    links: Map<SrcDstPeerPair, PeerCenterInfoEntry>,
    now: u64,
    k: SrcDstPeerPair,
)
    ensures
        fresh_links(links, now).contains_key(k) <==> (links.contains_key(k) && (now <= links[k].update_time
            || now - links[k].update_time < 180_000)),
        fresh_links(links, now).contains_key(k) ==> fresh_links(links, now)[k] == links[k],
{
}

} // verus!
