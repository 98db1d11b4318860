//! The messages of the peer-center RPC service.
use vstd::prelude::*;
use std::collections::HashMap;

verus! {

/// A peer's identifier.
pub type PeerId = u32;

/// What a peer reports of one of its direct connections.
#[derive(Clone, Copy, Debug, PartialEq, Eq, Structural)]
pub struct DirectConnectedPeerInfo {
    pub latency_ms: i32,
}

/// A peer's direct connections, by the peer at the other end.
#[derive(Clone, Debug)]
pub struct PeerInfoForGlobalMap {
    pub direct_peers: HashMap<PeerId, DirectConnectedPeerInfo>,
}

/// A peer reports its direct connections.
#[derive(Clone, Debug)]
pub struct ReportPeersRequest {
    pub my_peer_id: PeerId,
    pub peer_infos: Option<PeerInfoForGlobalMap>,
}

/// The (empty) answer to a report.
#[derive(Clone, Copy, Debug, PartialEq, Eq, Structural)]
pub struct ReportPeersResponse {}

/// A peer asks for the global peer map, giving the digest of the map it holds
/// (0 when it holds none).
#[derive(Clone, Copy, Debug, PartialEq, Eq, Structural)]
pub struct GetGlobalPeerMapRequest {
    pub digest: u64,
}

/// The global peer map by source peer, and the digest it has; both empty when the
/// asking peer's map is current.
#[derive(Clone, Debug)]
pub struct GetGlobalPeerMapResponse {
    pub global_peer_map: HashMap<PeerId, PeerInfoForGlobalMap>,
    pub digest: Option<u64>,
}

/// The global peer map: every peer's direct connections, by the reporting peer.
#[derive(Clone, Debug)]
pub struct GlobalPeerMap {
    pub map: HashMap<PeerId, PeerInfoForGlobalMap>,
}

impl PeerInfoForGlobalMap {
    /// No direct connections.
    pub fn new() -> (r: PeerInfoForGlobalMap)
        ensures
            r.direct_peers@ == Map::<PeerId, DirectConnectedPeerInfo>::empty(),
    {
        PeerInfoForGlobalMap { direct_peers: HashMap::new() }
    }
}

impl GetGlobalPeerMapResponse {
    /// The answer that carries neither a map nor a digest.
    pub fn empty() -> (r: GetGlobalPeerMapResponse)
        ensures
            r.global_peer_map@ == Map::<PeerId, PeerInfoForGlobalMap>::empty(),
            r.digest is None,
    {
        GetGlobalPeerMapResponse { global_peer_map: HashMap::new(), digest: None }
    }
}

impl GlobalPeerMap {
    /// The map without any peer.
    pub fn new() -> (r: GlobalPeerMap)
        ensures
            r.map@ == Map::<PeerId, PeerInfoForGlobalMap>::empty(),
    {
        GlobalPeerMap { map: HashMap::new() }
    }
}

impl Default for PeerInfoForGlobalMap {
    fn default() -> (r: PeerInfoForGlobalMap)
        ensures
            r.direct_peers@ == Map::<PeerId, DirectConnectedPeerInfo>::empty(),
    {
        PeerInfoForGlobalMap::new()
    }
}

impl Default for GetGlobalPeerMapResponse {
    fn default() -> (r: GetGlobalPeerMapResponse)
        ensures
            r.global_peer_map@ == Map::<PeerId, PeerInfoForGlobalMap>::empty(),
            r.digest is None,
    {
        GetGlobalPeerMapResponse::empty()
    }
}

impl Default for GlobalPeerMap {
    fn default() -> (r: GlobalPeerMap)
        ensures
            r.map@ == Map::<PeerId, PeerInfoForGlobalMap>::empty(),
    {
        GlobalPeerMap::new()
    }
}

} // verus!
