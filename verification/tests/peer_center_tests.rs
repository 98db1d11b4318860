use easytier::digest::{digest_from_hash, digest_message_bytes, digest_of_links};
use easytier::link_order::sort_links;
use easytier::rpc::{
    DirectConnectedPeerInfo, GetGlobalPeerMapRequest, PeerInfoForGlobalMap, ReportPeersRequest,
    ReportPeersResponse,
};
use easytier::server::PeerCenterServerGlobalData;
use easytier::store::{is_fresh, PEER_TIMEOUT_MS};
use sha2::{Digest, Sha256};
use std::collections::HashMap;

fn expected_digest(pairs: &[(u32, u32)]) -> u64 {
    let mut sorted = pairs.to_vec();
    sorted.sort();
    let mut hasher = Sha256::new();
    hasher.update(b"easytier-peer-digest-v1:");
    for (src, dst) in sorted {
        hasher.update(src.to_be_bytes());
        hasher.update(dst.to_be_bytes());
    }
    let hash = hasher.finalize();
    u64::from_be_bytes(hash[0..8].try_into().unwrap())
}

fn report(my: u32, peers: &[(u32, i32)]) -> ReportPeersRequest {
    let mut direct_peers = HashMap::new();
    for (peer, latency_ms) in peers {
        direct_peers.insert(*peer, DirectConnectedPeerInfo { latency_ms: *latency_ms });
    }
    ReportPeersRequest { my_peer_id: my, peer_infos: Some(PeerInfoForGlobalMap { direct_peers }) }
}

fn full_map(data: &PeerCenterServerGlobalData) -> HashMap<u32, HashMap<u32, i32>> {
    let resp = data.get_global_peer_map(GetGlobalPeerMapRequest { digest: 0 });
    assert_eq!(resp.digest, Some(data.current_digest()));
    resp.global_peer_map
        .into_iter()
        .map(|(src, info)| {
            (src, info.direct_peers.into_iter().map(|(dst, i)| (dst, i.latency_ms)).collect())
        })
        .collect()
}

fn map_of(entries: &[(u32, &[(u32, i32)])]) -> HashMap<u32, HashMap<u32, i32>> {
    entries.iter().map(|(src, peers)| (*src, peers.iter().copied().collect())).collect()
}

#[test]
fn new_peer_center_is_empty() {
    let data = PeerCenterServerGlobalData::new();
    assert_eq!(data.current_digest(), 0);
    assert_eq!(data.last_report_time(1), None);
    let resp = data.get_global_peer_map(GetGlobalPeerMapRequest { digest: 0 });
    assert!(resp.global_peer_map.is_empty());
    assert_eq!(resp.digest, Some(0));
    let other = PeerCenterServerGlobalData::default();
    assert_eq!(other.current_digest(), 0);
}

#[test]
fn report_then_query_returns_links_grouped_by_source() {
    let mut data = PeerCenterServerGlobalData::new();
    let resp = data.report_peers(report(1, &[(2, 10), (3, 20)]), 1_000);
    assert_eq!(resp, ReportPeersResponse {});
    data.report_peers(report(2, &[(1, 11)]), 2_000);
    assert_eq!(
        full_map(&data),
        map_of(&[(1, &[(2, 10), (3, 20)]), (2, &[(1, 11)])])
    );
    assert_eq!(data.current_digest(), expected_digest(&[(1, 2), (1, 3), (2, 1)]));
    assert_eq!(data.last_report_time(1), Some(1_000));
    assert_eq!(data.last_report_time(2), Some(2_000));
    assert_eq!(data.last_report_time(3), None);
}

#[test]
fn up_to_date_peer_gets_empty_answer() {
    let mut data = PeerCenterServerGlobalData::new();
    data.report_peers(report(7, &[(8, 5)]), 10);
    let digest = data.current_digest();
    assert_ne!(digest, 0);
    let resp = data.get_global_peer_map(GetGlobalPeerMapRequest { digest });
    assert!(resp.global_peer_map.is_empty());
    assert_eq!(resp.digest, None);
}

#[test]
fn outdated_digest_gets_full_map() {
    let mut data = PeerCenterServerGlobalData::new();
    data.report_peers(report(7, &[(8, 5)]), 10);
    let old_digest = data.current_digest();
    data.report_peers(report(8, &[(7, 6)]), 20);
    assert_ne!(data.current_digest(), old_digest);
    let resp = data.get_global_peer_map(GetGlobalPeerMapRequest { digest: old_digest });
    assert_eq!(resp.digest, Some(data.current_digest()));
    assert_eq!(resp.global_peer_map.len(), 2);
    assert_eq!(resp.global_peer_map[&8].direct_peers[&7].latency_ms, 6);
}

#[test]
fn zero_digest_always_gets_full_map() {
    let mut data = PeerCenterServerGlobalData::new();
    let resp = data.get_global_peer_map(GetGlobalPeerMapRequest { digest: 0 });
    assert_eq!(resp.digest, Some(0));
    data.report_peers(report(1, &[(2, 1)]), 1);
    let resp = data.get_global_peer_map(GetGlobalPeerMapRequest { digest: 0 });
    assert_eq!(resp.global_peer_map.len(), 1);
}

#[test]
fn report_without_peer_infos_records_time_only() {
    let mut data = PeerCenterServerGlobalData::new();
    data.report_peers(ReportPeersRequest { my_peer_id: 4, peer_infos: None }, 123);
    assert_eq!(data.last_report_time(4), Some(123));
    assert!(full_map(&data).is_empty());
    assert_eq!(data.current_digest(), expected_digest(&[]));
}

#[test]
fn new_report_keeps_links_it_leaves_out() {
    let mut data = PeerCenterServerGlobalData::new();
    data.report_peers(report(1, &[(2, 10)]), 100);
    data.report_peers(report(1, &[(3, 30)]), 200);
    assert_eq!(full_map(&data), map_of(&[(1, &[(2, 10), (3, 30)])]));
    assert_eq!(data.current_digest(), expected_digest(&[(1, 2), (1, 3)]));
}

#[test]
fn new_report_replaces_reported_link() {
    let mut data = PeerCenterServerGlobalData::new();
    data.report_peers(report(1, &[(2, 10)]), 100);
    data.report_peers(report(1, &[(2, 99)]), 200_000);
    assert_eq!(full_map(&data), map_of(&[(1, &[(2, 99)])]));
    data.clean_outdated_peer(200_000 + PEER_TIMEOUT_MS - 1);
    assert_eq!(full_map(&data), map_of(&[(1, &[(2, 99)])]));
}

#[test]
fn cleanup_drops_reports_at_timeout() {
    let mut data = PeerCenterServerGlobalData::new();
    data.report_peers(report(1, &[(2, 10)]), 1_000);
    data.report_peers(report(3, &[(4, 40)]), 50_000);
    let digest = data.current_digest();

    data.clean_outdated_peer(1_000 + 179_999);
    assert_eq!(full_map(&data), map_of(&[(1, &[(2, 10)]), (3, &[(4, 40)])]));
    assert_eq!(data.last_report_time(1), Some(1_000));

    data.clean_outdated_peer(1_000 + 180_000);
    assert_eq!(full_map(&data), map_of(&[(3, &[(4, 40)])]));
    assert_eq!(data.last_report_time(1), None);
    assert_eq!(data.last_report_time(3), Some(50_000));
    assert_eq!(data.current_digest(), digest);

    data.clean_outdated_peer(50_000 + 180_000);
    assert!(full_map(&data).is_empty());
    assert_eq!(data.current_digest(), digest);
}

#[test]
fn cleanup_twice_is_cleanup_once() {
    let mut data = PeerCenterServerGlobalData::new();
    data.report_peers(report(1, &[(2, 10)]), 0);
    data.report_peers(report(2, &[(1, 10)]), 100_000);
    data.clean_outdated_peer(200_000);
    let once = full_map(&data);
    data.clean_outdated_peer(200_000);
    assert_eq!(full_map(&data), once);
    assert_eq!(once, map_of(&[(2, &[(1, 10)])]));
}

#[test]
fn report_from_the_future_is_kept() {
    let mut data = PeerCenterServerGlobalData::new();
    data.report_peers(report(1, &[(2, 10)]), 500_000);
    data.clean_outdated_peer(0);
    assert_eq!(full_map(&data), map_of(&[(1, &[(2, 10)])]));
}

#[test]
fn freshness_boundary() {
    assert!(is_fresh(0, 0));
    assert!(is_fresh(179_999, 0));
    assert!(!is_fresh(180_000, 0));
    assert!(is_fresh(0, u64::MAX));
    assert!(!is_fresh(u64::MAX, 0));
}

#[test]
fn digest_does_not_depend_on_report_order() {
    let mut a = PeerCenterServerGlobalData::new();
    a.report_peers(report(5, &[(1, 1), (9, 9)]), 1);
    a.report_peers(report(2, &[(7, 7)]), 2);
    let mut b = PeerCenterServerGlobalData::new();
    b.report_peers(report(2, &[(7, 3)]), 50);
    b.report_peers(report(5, &[(9, 4), (1, 5)]), 60);
    assert_eq!(a.current_digest(), b.current_digest());
    assert_eq!(a.calc_global_digest(), expected_digest(&[(5, 1), (5, 9), (2, 7)]));
}

#[test]
fn digest_of_empty_map() {
    let data = PeerCenterServerGlobalData::new();
    assert_eq!(data.calc_global_digest(), expected_digest(&[]));
    assert_ne!(data.calc_global_digest(), 0);
}

#[test]
fn digest_of_links_matches_reference() {
    let keys = vec![(3, 1), (1, 2), (1, 1), (u32::MAX, 0)];
    assert_eq!(digest_of_links(&keys), expected_digest(&keys));
}

#[test]
fn sort_links_orders_by_source_then_destination() {
    let keys = vec![(3, 1), (1, 2), (2, 0), (1, 1), (0, u32::MAX)];
    assert_eq!(sort_links(&keys), vec![(0, u32::MAX), (1, 1), (1, 2), (2, 0), (3, 1)]);
    assert_eq!(sort_links(&Vec::new()), Vec::<(u32, u32)>::new());
}

#[test]
fn digest_message_layout() {
    let msg = digest_message_bytes(&vec![(0x01020304, 0x0a0b0c0d)]);
    let mut expected = b"easytier-peer-digest-v1:".to_vec();
    expected.extend_from_slice(&[1, 2, 3, 4, 10, 11, 12, 13]);
    assert_eq!(msg, expected);
    assert_eq!(digest_message_bytes(&Vec::new()), b"easytier-peer-digest-v1:".to_vec());
}

#[test]
fn digest_from_hash_reads_first_eight_bytes_big_endian() {
    let hash = vec![1, 2, 3, 4, 5, 6, 7, 8, 9, 10];
    assert_eq!(digest_from_hash(&hash), 0x0102030405060708);
    assert_eq!(digest_from_hash(&vec![0xff; 8]), u64::MAX);
}
