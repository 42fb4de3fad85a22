use cell_sdk::axon::{AxonClient, IpAddress, Ipv6, LocalAddress, SocketAddress};
use cell_sdk::config::{parse_peers, parse_u64, storage_file_name, CellConfig, CellTestContext, Identity};
use cell_sdk::coordination::{
    expansion_outcome, expansion_response, macro_list_outcome, unreachable_response, CoordinationHandler,
    CoordinationStep, MacroCoordinationRequest, MacroCoordinationResponse, MacroInfo, MacroListOutcome,
};
use cell_sdk::discovery::Ipv4;
use cell_sdk::gpu::{region_size, slot_offset, SharedGpuBufferHeader};
use cell_sdk::protocol::{CellPolicy, Primitive, TypeRef};
use cell_sdk::text::u64_to_decimal;
use cell_sdk::tissue::Tissue;
use cell_sdk::transport::{Response, ShmTransport};

#[test]
fn tissue_serves_round_robin() {
    assert_eq!(
        Tissue::<u8>::new("db", vec![]).err(),
        Some("No instances of tissue 'db' found locally.".to_string())
    );
    let mut t = Tissue::new("db", vec![1, 2, 3]).ok().unwrap();
    let mut served = vec![];
    for _ in 0..6 {
        served.push(*t.current().unwrap());
        t.rotate();
    }
    assert_eq!(served, vec![1, 2, 3, 1, 2, 3]);
    assert_eq!(t.members(), &vec![1, 2, 3]);
}

#[test]
fn gpu_handoff() {
    let mut h = SharedGpuBufferHeader::new(4096);
    assert_eq!(h.begin_read(), None);
    let s = h.next_write_slot();
    assert_eq!(s, 0);
    assert!(h.slot_free(s));
    h.end_write(s, 77);
    assert!(!h.slot_free(s));
    assert_eq!(h.begin_read(), Some((0, 77)));
    h.end_read(0);
    assert_eq!(h.read_slot, 1);
    assert_eq!(h.begin_read(), None);
    let s1 = h.next_write_slot();
    let s2 = h.next_write_slot();
    assert_eq!((s1, s2), (1, 2));
    h.end_write(s2, 9);
    assert_eq!(h.begin_read(), Some((2, 9)));
    h.end_write(s1, 8);
    assert_eq!(h.begin_read(), Some((1, 8)));
    h.abandon_write(s1);
    assert_eq!(h.begin_read(), Some((2, 9)));
    assert_eq!(region_size(4096, 3), 64 + 3 * 4096);
    assert_eq!(slot_offset(2, 4096), 8192);
}

#[test]
fn configuration_from_values() {
    assert_eq!(parse_u64("42"), Some(42));
    assert_eq!(parse_u64("+7"), Some(7));
    assert_eq!(parse_u64("18446744073709551615"), Some(u64::MAX));
    assert_eq!(parse_u64("18446744073709551616"), None);
    assert_eq!(parse_u64(""), None);
    assert_eq!(parse_u64("+"), None);
    assert_eq!(parse_u64("-1"), None);
    assert_eq!(parse_u64(" 1"), None);
    assert_eq!(parse_peers(" a , b,, c\t"), vec!["a", "b", "c"]);
    assert_eq!(parse_peers(""), Vec::<String>::new());
    assert_eq!(parse_peers("\u{a0}x\u{3000}"), vec!["x"]);
    let c = CellConfig::from_values(None, None, "/w/.cell/storage/db.wal".to_string()).ok().unwrap();
    assert_eq!(c.node_id, 1);
    assert!(c.peers.is_empty());
    assert_eq!(c.raft_storage_path.as_deref(), Some("/w/.cell/storage/db.wal"));
    let c = CellConfig::from_values(Some("9"), Some("n1,n2"), String::new()).ok().unwrap();
    assert_eq!(c.node_id, 9);
    assert_eq!(c.peers, vec!["n1", "n2"]);
    assert_eq!(
        CellConfig::from_values(Some("nine"), None, String::new()).err(),
        Some("CELL_NODE_ID must be a u64 integer".to_string())
    );
    assert_eq!(storage_file_name("db"), "db.wal");
}

#[test]
fn identity_bootstrap() {
    let i = Identity::bootstrap(Some("12"), Some("ledger".to_string()), None, 5);
    assert_eq!(i.node_id, 12);
    assert_eq!(i.cell_name, "ledger");
    assert_eq!(i.organism, "default");
    assert!(i.socket_path.is_empty());
    let j = Identity::bootstrap(Some("x"), None, Some("prod".to_string()), 5);
    assert_eq!(j.node_id, 5);
    assert_eq!(j.cell_name, "unknown");
    assert_eq!(j.organism, "prod");
    let t = CellTestContext::new("suite");
    assert_eq!(t.test_name(), "suite");
}

fn info(name: &str) -> MacroInfo {
    MacroInfo { name: name.to_string(), description: format!("{} macro", name) }
}

#[test]
fn macro_coordination() {
    let h = CoordinationHandler::new("schema", vec![info("table"), info("index")]);
    match h.handle::<u8>(MacroCoordinationRequest::WhatMacrosDoYouProvide) {
        CoordinationStep::Respond(MacroCoordinationResponse::Macros { macros }) => {
            assert_eq!(macros.len(), 2);
            assert_eq!(macros[1].name, "index");
        }
        _ => panic!("expected the list"),
    }
    match h.handle::<u8>(MacroCoordinationRequest::GetMacroInfo { name: "index".to_string() }) {
        CoordinationStep::Respond(MacroCoordinationResponse::MacroInfo { info }) => {
            assert_eq!(info.description, "index macro")
        }
        _ => panic!("expected the info"),
    }
    match h.handle::<u8>(MacroCoordinationRequest::GetMacroInfo { name: "view".to_string() }) {
        CoordinationStep::Respond(MacroCoordinationResponse::Error { message }) => {
            assert_eq!(message, "Macro 'view' not found")
        }
        _ => panic!("expected an error"),
    }
    assert!(matches!(
        h.handle(MacroCoordinationRequest::CoordinateExpansion { macro_name: "table".to_string(), context: 3u8 }),
        CoordinationStep::Expand { context: 3, .. }
    ));
    assert!(matches!(
        expansion_response(Ok("struct X;".to_string())),
        MacroCoordinationResponse::GeneratedCode { code } if code == "struct X;"
    ));
    assert!(matches!(
        unreachable_response("schema", true, ""),
        MacroCoordinationResponse::Error { message } if message == "Cell 'schema' connection timeout"
    ));
    assert!(matches!(
        unreachable_response("schema", false, "refused"),
        MacroCoordinationResponse::Error { message } if message == "Cell 'schema' not running: refused"
    ));
    assert!(matches!(
        macro_list_outcome(MacroCoordinationResponse::Error { message: "m".to_string() }),
        MacroListOutcome::UseCache(m) if m == "m"
    ));
    assert_eq!(
        expansion_outcome(MacroCoordinationResponse::Error { message: "bad".to_string() }),
        Err("Coordination failed: bad".to_string())
    );
    assert_eq!(
        expansion_outcome(MacroCoordinationResponse::Macros { macros: vec![] }),
        Err("Unexpected response".to_string())
    );
}

#[test]
fn protocol_types_and_text() {
    let p = CellPolicy::default();
    assert_eq!(p.max_latency_ms, 0);
    assert!(!p.auto_spawn);
    let t = TypeRef::Vec(Box::new(TypeRef::Primitive(Primitive::U64)));
    assert!(matches!(t, TypeRef::Vec(_)));
    assert_eq!(u64_to_decimal(0), "0");
    assert_eq!(u64_to_decimal(1_234_567_890), "1234567890");
    assert_eq!(u64_to_decimal(u64::MAX), "18446744073709551615");
}

#[test]
fn responses_and_shm_requests() {
    let r: Response<u8> = Response::Owned(vec![1, 2]);
    assert_eq!(r.into_owned(), vec![1, 2]);
    let b = [3u8, 4];
    let r: Response<u8> = Response::Borrowed(&b);
    assert_eq!(r.into_owned(), vec![3, 4]);
    let r: Response<u8> = Response::Typed(7);
    assert_eq!(r.into_owned(), Vec::<u8>::new());
    assert_eq!(ShmTransport::split_request(&[2, 9, 9]), (2, vec![9, 9]));
}

#[test]
fn network_addresses() {
    let v6 = |first: u16| Ipv6 { segments: [first, 0, 0, 0, 0, 0, 0, 1] };
    let addrs = vec![
        LocalAddress { loopback: true, ip: IpAddress::V4(Ipv4(127, 0, 0, 1)) },
        LocalAddress { loopback: false, ip: IpAddress::V4(Ipv4(169, 254, 1, 1)) },
        LocalAddress { loopback: false, ip: IpAddress::V6(v6(0xfe80)) },
        LocalAddress { loopback: false, ip: IpAddress::V4(Ipv4(10, 0, 0, 5)) },
        LocalAddress { loopback: false, ip: IpAddress::V6(v6(0x2001)) },
    ];
    let got = AxonClient::local_addresses(&addrs, None);
    assert_eq!(got.len(), 2);
    assert!(matches!(got[0], IpAddress::V4(Ipv4(10, 0, 0, 5))));
    assert!(matches!(got[1], IpAddress::V6(Ipv6 { segments }) if segments[0] == 0x2001));
    let fallback = AxonClient::local_addresses(&vec![], None);
    assert!(matches!(fallback[..], [IpAddress::V4(Ipv4(0, 0, 0, 0))]));
    let primary = AxonClient::local_addresses(&vec![], Some(IpAddress::V4(Ipv4(1, 2, 3, 4))));
    assert!(matches!(primary[..], [IpAddress::V4(Ipv4(1, 2, 3, 4))]));
    let exact = SocketAddress { ip: IpAddress::V4(Ipv4(10, 0, 0, 5)), port: 7 };
    let c = AxonClient::candidate_addresses(Some(exact), Some(Ipv4(10, 0, 0, 5)), None, 7);
    assert_eq!(c.len(), 3);
    assert!(matches!(c[2].ip, IpAddress::V4(Ipv4(10, 0, 0, 255))));
    let c6 = AxonClient::candidate_addresses(None, None, Some(v6(0x2001)), 7);
    assert_eq!(c6.len(), 1);
    assert!(AxonClient::candidate_addresses(None, None, None, 7).is_empty());
}

#[test]
fn gpu_region_holds_every_slot() {
    let r = region_size(100, 3);
    assert_eq!(r, 364);
    assert!(64 + slot_offset(2, 100) + 100 <= r);
}
