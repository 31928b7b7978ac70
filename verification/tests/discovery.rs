use screenhop::discovery::{addr_less, merge, DiscoveredPeer, ManualHosts, PeerAddr, PeerSource};
use screenhop::message::Message;
use screenhop::runtime::{is_self_candidate, resolve_target, switch_command, sync_candidates};
use screenhop::strmap::StrMap;

fn v4(a: u8, b: u8, c: u8, d: u8, port: u16) -> PeerAddr {
    PeerAddr {
        is_v6: false,
        ip: u128::from(u32::from_be_bytes([a, b, c, d])),
        port,
        flowinfo: 0,
        scope_id: 0,
    }
}

fn v6(ip: u128, port: u16) -> PeerAddr {
    PeerAddr { is_v6: true, ip, port, flowinfo: 0, scope_id: 0 }
}

/// What resolving a host entry gives: its one address, or none for garbage.
fn resolve(host_port: &str) -> Vec<PeerAddr> {
    match host_port.trim() {
        "127.0.0.1:7777" => vec![v4(127, 0, 0, 1, 7777)],
        "10.0.0.5:9000" => vec![v4(10, 0, 0, 5, 9000)],
        "10.0.0.5:7777" => vec![v4(10, 0, 0, 5, 7777)],
        _ => Vec::new(),
    }
}

#[test]
fn manual_hosts_parse_dedup_and_report_as_manual() {
    let mut m = ManualHosts::new();
    assert!(m.add_resolved(&resolve("127.0.0.1:7777")));
    assert!(m.add_resolved(&resolve("127.0.0.1:7777"))); // duplicate
    assert!(m.add_resolved(&resolve("10.0.0.5:9000")));
    assert_eq!(m.len(), 2);
    let peers = m.peers();
    assert!(peers
        .iter()
        .all(|p| p.source == PeerSource::Manual && p.peer_id.is_none()));
}

#[test]
fn manual_add_rejects_garbage() {
    let mut m = ManualHosts::new();
    assert!(!m.add_resolved(&resolve("not-a-socket-addr")));
    assert!(!m.add_resolved(&resolve("")));
    assert!(m.is_empty());
}

#[test]
fn merge_dedups_by_addr_and_prefers_manual_and_known_id() {
    let addr = v4(10, 0, 0, 5, 7777);
    let mdns = vec![DiscoveredPeer {
        peer_id: Some("peerB".into()),
        addr,
        source: PeerSource::Mdns,
    }];
    let mut manual = ManualHosts::new();
    assert!(manual.add_resolved(&resolve("10.0.0.5:7777")));

    let merged = merge(&[mdns, manual.peers()]);
    assert_eq!(merged.len(), 1, "same address must collapse to one entry");
    let p = &merged[0];
    assert_eq!(p.addr, addr);
    assert_eq!(p.peer_id.as_deref(), Some("peerB"), "known id is kept");
    assert_eq!(
        p.source,
        PeerSource::Manual,
        "manual assertion wins the source"
    );
}

#[test]
fn merge_orders_by_address_and_keeps_the_first_known_id() {
    let a = v4(10, 0, 0, 9, 7777);
    let b = v4(10, 0, 0, 5, 9000);
    let c = v4(10, 0, 0, 5, 7777);
    let d = v6(1, 7777);
    let first = vec![
        DiscoveredPeer { peer_id: None, addr: d, source: PeerSource::Mdns },
        DiscoveredPeer { peer_id: Some("first".into()), addr: a, source: PeerSource::Mdns },
        DiscoveredPeer { peer_id: None, addr: b, source: PeerSource::Mdns },
    ];
    let second = vec![
        DiscoveredPeer { peer_id: Some("second".into()), addr: a, source: PeerSource::Mdns },
        DiscoveredPeer { peer_id: Some("late".into()), addr: b, source: PeerSource::Mdns },
        DiscoveredPeer { peer_id: None, addr: c, source: PeerSource::Manual },
    ];
    let merged = merge(&[first, second]);
    let addrs: Vec<PeerAddr> = merged.iter().map(|p| p.addr).collect();
    assert_eq!(addrs, vec![c, b, a, d]);
    assert_eq!(merged[0].source, PeerSource::Manual);
    assert_eq!(merged[1].peer_id.as_deref(), Some("late"));
    assert_eq!(merged[2].peer_id.as_deref(), Some("first"));
    assert_eq!(merged[3].peer_id, None);
    assert_eq!(merged[3].source, PeerSource::Mdns);
}

#[test]
fn address_order_is_family_then_address_then_port() {
    let ordered = [v4(9, 255, 255, 255, 1), v4(10, 0, 0, 5, 7777), v4(10, 0, 0, 5, 9000), v6(0, 80), v6(1, 1)];
    for (i, x) in ordered.iter().enumerate() {
        for (j, y) in ordered.iter().enumerate() {
            assert_eq!(addr_less(x, y), i < j, "{i} vs {j}");
        }
    }
    let mut scoped = v6(1, 1);
    scoped.scope_id = 2;
    assert!(addr_less(&v6(1, 1), &scoped));
}

#[test]
fn merge_of_nothing_is_empty() {
    assert!(merge(&[]).is_empty());
    assert!(merge(&[Vec::new(), Vec::new()]).is_empty());
}

#[test]
fn resolve_routes_self_to_loopback() {
    let self_addr = v4(127, 0, 0, 1, 7777);
    let pa: StrMap<PeerAddr> = StrMap::new();
    assert_eq!(resolve_target("me", self_addr, &pa, "me"), Some(self_addr));
}

#[test]
fn resolve_uses_learned_addr_for_a_known_peer() {
    let self_addr = v4(127, 0, 0, 1, 7777);
    let mut pa: StrMap<PeerAddr> = StrMap::new();
    pa.insert("B".to_owned(), v4(10, 0, 0, 5, 7777));
    assert_eq!(resolve_target("me", self_addr, &pa, "B"), Some(v4(10, 0, 0, 5, 7777)));
}

#[test]
fn resolve_is_none_for_an_unknown_peer() {
    let self_addr = v4(127, 0, 0, 1, 7777);
    let pa: StrMap<PeerAddr> = StrMap::new();
    assert_eq!(resolve_target("me", self_addr, &pa, "ghost"), None);
}

#[test]
fn self_candidates_are_filtered_by_address_or_advertised_peer_id() {
    let self_addr = v4(127, 0, 0, 1, 7777);
    let by_addr = DiscoveredPeer { peer_id: None, addr: self_addr, source: PeerSource::Manual };
    let by_id = DiscoveredPeer {
        peer_id: Some("me".into()),
        addr: v4(10, 0, 0, 5, 7777),
        source: PeerSource::Mdns,
    };
    let remote = DiscoveredPeer {
        peer_id: Some("peer-b".into()),
        addr: v4(10, 0, 0, 6, 7777),
        source: PeerSource::Mdns,
    };

    assert!(is_self_candidate(&by_addr, "me", self_addr));
    assert!(is_self_candidate(&by_id, "me", self_addr));
    assert!(!is_self_candidate(&remote, "me", self_addr));

    let targets = sync_candidates(&[vec![remote.clone(), by_id.clone()], vec![by_addr.clone()]], "me", self_addr);
    assert_eq!(targets, vec![remote]);
}

#[test]
fn switch_command_carries_only_advisory_input() {
    assert_eq!(
        switch_command("mon1", "peer-b"),
        Message::SwitchCommand { monitor_id: "mon1".into(), target: "peer-b".into(), input_value: 0 }
    );
}
