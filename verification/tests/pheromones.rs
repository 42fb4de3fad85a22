use cell_sdk::config::{NeighborConfig, Organism};
use cell_sdk::discovery::{PheromoneSystem, Signal};
use cell_sdk::identity::HeartbeatService;
use cell_sdk::io_route::{MeshBuilder, NervousSystem};

fn sig(name: &str, port: u16, ts: u64) -> Signal {
    Signal { cell_name: name.to_string(), ip: "10.0.0.7".to_string(), port, timestamp: ts }
}

#[test]
fn pheromones_record_answer_and_ignore() {
    let mut p = PheromoneSystem::new();
    // no advertisement yet: a query goes unanswered
    assert!(p.receive(sig("me", 0, 1), false, 5).is_none());
    let mine = p.secrete("me", "10.0.0.2".to_string(), 7000, 10);
    assert_eq!(mine.port, 7000);
    let reply = p.receive(sig("other", 0, 11), false, 12).unwrap();
    assert_eq!(reply.cell_name, "me");
    assert_eq!(reply.timestamp, 12);
    // a query for ourselves, or our own echo, is not answered
    assert!(p.receive(sig("me", 0, 11), false, 12).is_none());
    assert!(p.receive(sig("other", 0, 11), true, 12).is_none());
    // advertisements are recorded, echoes are not
    assert!(p.receive(sig("db", 5432, 20), false, 21).is_none());
    assert_eq!(p.lookup(&"db".to_string()).unwrap().port, 5432);
    assert!(p.receive(sig("ghost", 1, 20), true, 21).is_none());
    assert!(p.lookup(&"ghost".to_string()).is_none());
    let q = PheromoneSystem::query("db", "10.0.0.2".to_string(), 30);
    assert_eq!((q.port, q.timestamp, q.cell_name.as_str()), (0, 30, "db"));
}

#[test]
fn routing_and_mesh_helpers() {
    assert_eq!(NervousSystem::next_hop(None), "default");
    assert_eq!(NervousSystem::next_hop(Some("gw".to_string())), "gw");
    assert!(!MeshBuilder::progress_due(0));
    assert!(MeshBuilder::progress_due(10));
    assert!(!MeshBuilder::progress_due(11));
    assert_eq!(Organism::neighbor_path(&NeighborConfig::Path("../db".to_string())), "../db");
    assert_eq!(
        Organism::neighbor_path(&NeighborConfig::Detailed { path: "../kv".to_string() }),
        "../kv"
    );
}

#[test]
fn heartbeat_announcement() {
    let h = HeartbeatService::with_nonce("cell".to_string(), "10.0.0.1:9".to_string(), 3);
    let i = h.instance_info("2025-01-01T00:00:00+00:00".to_string());
    assert_eq!(i.node_id, h.node_id);
    assert_eq!(i.endpoint, "10.0.0.1:9");
    assert!(i.region.is_none());
    assert_eq!(i.last_heartbeat, "2025-01-01T00:00:00+00:00");
    assert_eq!(i.signature, format!("{}:10.0.0.1:9", h.node_id));
}
