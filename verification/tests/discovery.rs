use cell_sdk::discovery::{
    best_ip, broadcast_targets, ipv4_to_string, on_signal, resolve_best_ip, socket_address,
    CellNode, CellStatus, Discovery, InterfaceV4, Ipv4, LanDiscovery, Signal, SignalAction,
    SignalCache,
};

fn sig(name: &str, ip: &str, port: u16, ts: u64) -> Signal {
    Signal { cell_name: name.to_string(), ip: ip.to_string(), port, timestamp: ts }
}

#[test]
fn cache_keeps_the_latest_signal_per_cell() {
    let mut c = SignalCache::new();
    c.insert(sig("a", "1.1.1.1", 1, 10));
    c.insert(sig("b", "2.2.2.2", 2, 11));
    c.insert(sig("a", "3.3.3.3", 3, 12));
    assert_eq!(c.len(), 2);
    let a = c.find(&"a".to_string()).unwrap();
    assert_eq!((a.ip.as_str(), a.port, a.timestamp), ("3.3.3.3", 3, 12));
    assert!(c.find(&"z".to_string()).is_none());
    assert_eq!(c.all().len(), 2);
}

#[test]
fn pruning_drops_old_signals() {
    let mut c = SignalCache::new();
    c.insert(sig("old", "x", 1, 100));
    c.insert(sig("new", "y", 1, 195));
    c.insert(sig("future", "z", 1, 300));
    c.prune_stale(200, 10);
    assert!(c.find(&"old".to_string()).is_none());
    assert!(c.find(&"new".to_string()).is_some());
    // a timestamp ahead of the clock wraps around and counts as very old
    assert!(c.find(&"future".to_string()).is_none());
}

#[test]
fn eviction_drops_the_oldest() {
    let mut c = SignalCache::new();
    for (i, ts) in [50u64, 10, 40, 20, 30].iter().enumerate() {
        c.insert(sig(&format!("n{}", i), "ip", 1, *ts));
    }
    c.evict_oldest(2);
    assert_eq!(c.len(), 3);
    assert!(c.find(&"n1".to_string()).is_none());
    assert!(c.find(&"n3".to_string()).is_none());
    assert!(c.find(&"n0".to_string()).is_some());
    c.evict_oldest(10);
    assert_eq!(c.len(), 0);
}

#[test]
fn full_discovery_cache_evicts_a_tenth() {
    let mut d = LanDiscovery::new();
    for i in 0..10_000u64 {
        d.update(sig(&format!("c{}", i), "ip", 1, i));
    }
    d.update(sig("late", "ip", 2, 99_999));
    assert!(d.find(&"late".to_string()).is_some());
    assert!(d.find(&"c0".to_string()).is_none());
    assert!(d.find(&"c999".to_string()).is_none());
    assert!(d.find(&"c1000".to_string()).is_some());
    assert_eq!(d.all().len(), 9_001);
    d.prune_stale(100_000, 5);
    assert_eq!(d.all().len(), 1);
}

#[test]
fn signals_are_answered_recorded_or_dropped() {
    let mine = Some(sig("me", "10.0.0.2", 7000, 1));
    assert!(matches!(on_signal(sig("me", "x", 0, 5), true, &mine, 9), SignalAction::Ignore));
    match on_signal(sig("other", "x", 0, 5), false, &mine, 9) {
        SignalAction::Answer(r) => {
            assert_eq!(r.cell_name, "me");
            assert_eq!(r.port, 7000);
            assert_eq!(r.timestamp, 9);
        }
        _ => panic!("expected an answer"),
    }
    assert!(matches!(on_signal(sig("me", "x", 0, 5), false, &mine, 9), SignalAction::Ignore));
    assert!(matches!(on_signal(sig("q", "x", 0, 5), false, &None, 9), SignalAction::Ignore));
    match on_signal(sig("db", "10.0.0.9", 80, 5), false, &mine, 9) {
        SignalAction::Record(r) => assert_eq!(r.cell_name, "db"),
        _ => panic!("expected a record"),
    }
}

fn iface(loopback: bool, ip: Ipv4, broadcast: Option<Ipv4>) -> InterfaceV4 {
    InterfaceV4 { loopback, is_v4: true, ip, broadcast }
}

#[test]
fn broadcast_and_advertised_addresses() {
    let ifs = vec![
        iface(true, Ipv4(127, 0, 0, 1), None),
        iface(false, Ipv4(172, 17, 0, 1), Some(Ipv4(172, 17, 255, 255))),
        iface(false, Ipv4(192, 168, 1, 5), None),
        InterfaceV4 { loopback: false, is_v4: false, ip: Ipv4(0, 0, 0, 0), broadcast: None },
    ];
    assert_eq!(
        broadcast_targets(&ifs),
        vec![Ipv4(172, 17, 255, 255), Ipv4(255, 255, 255, 255)]
    );
    assert_eq!(best_ip(&ifs), Some(Ipv4(192, 168, 1, 5)));
    assert_eq!(resolve_best_ip(None, &ifs), "192.168.1.5");
    assert_eq!(resolve_best_ip(Some("10.1.1.1".to_string()), &ifs), "10.1.1.1");
    assert_eq!(resolve_best_ip(None, &vec![]), "127.0.0.1");
    assert_eq!(ipv4_to_string(Ipv4(10, 0, 255, 7)), "10.0.255.7");
    assert_eq!(socket_address("10.0.0.1", 9099), "10.0.0.1:9099");
}

#[test]
fn probes_mark_cells_alive() {
    let mut n = CellNode {
        name: "db".to_string(),
        lan_address: None,
        local_socket: Some("/run/db.sock".to_string()),
        status: CellStatus { local_latency_ns: None, lan_latency_ns: Some(5), is_alive: false },
    };
    n.record_probe(Some(100), None);
    assert_eq!(n.status.local_latency_ns, Some(100));
    assert_eq!(n.status.lan_latency_ns, Some(5));
    assert!(n.status.is_alive);
    n.record_probe(None, None);
    assert_eq!(n.status.local_latency_ns, None);
    assert!(n.status.is_alive);
}

#[test]
fn scan_merges_network_and_local_cells_by_name() {
    let lan = vec![sig("zeta", "10.0.0.3", 9, 1), sig("alpha", "10.0.0.1", 7, 1), sig("zeta", "10.0.0.4", 10, 2)];
    let local = vec![
        ("beta".to_string(), "/run/beta.sock".to_string()),
        ("alpha".to_string(), "/run/alpha.sock".to_string()),
    ];
    let nodes = Discovery::merge(&lan, &local);
    let names: Vec<&str> = nodes.iter().map(|n| n.name.as_str()).collect();
    assert_eq!(names, vec!["alpha", "beta", "zeta"]);
    assert_eq!(nodes[0].lan_address.as_deref(), Some("10.0.0.1:7"));
    assert_eq!(nodes[0].local_socket.as_deref(), Some("/run/alpha.sock"));
    assert_eq!(nodes[1].lan_address, None);
    assert_eq!(nodes[2].lan_address.as_deref(), Some("10.0.0.4:10"));
    assert_eq!(nodes[2].local_socket, None);
    assert!(!nodes[2].status.is_alive);
    assert!(Discovery::merge(&vec![], &vec![]).is_empty());
}
