use cell_sdk::io_route::{broker_accepted, router_file_name, trim_nuls, IoClient, IoRoute};

#[test]
fn router_answers_and_routes() {
    assert_eq!(IoClient::router_grant(false, &vec![7, 8]), Some(7));
    assert_eq!(IoClient::router_grant(true, &vec![7]), None);
    assert_eq!(IoClient::router_grant(false, &vec![]), None);
    assert_eq!(IoClient::io_route(Some(3), true, true, true), IoRoute::Router(3));
    assert_eq!(IoClient::io_route(None, true, true, true), IoRoute::NeighborNotReady);
    assert_eq!(IoClient::io_route(None, true, false, false), IoRoute::Neighbor);
    assert_eq!(IoClient::io_route(None, false, false, true), IoRoute::Global);
    assert_eq!(IoClient::io_route(None, false, false, false), IoRoute::NoPath);
    assert_eq!(
        IoClient::neighbor_error(true, "x"),
        "Neighbor socket not found (cell not ready)"
    );
    assert_eq!(IoClient::neighbor_error(false, "refused"), "Failed to connect to neighbor: refused");
    assert_eq!(
        IoClient::neighbor_not_ready_message(),
        "Neighbor link exists but target socket not ready"
    );
    assert!(broker_accepted(0));
    assert!(!broker_accepted(1));
}

#[test]
fn router_files_and_pipe_names() {
    assert_eq!(router_file_name(0x1234), "0000000000001234.router");
    assert_eq!(router_file_name(u64::MAX), "ffffffffffffffff.router");
    assert_eq!(trim_nuls(b"\0\0pipe-a\0\0\0"), b"pipe-a".to_vec());
    assert_eq!(trim_nuls(b"x\0y"), b"x\0y".to_vec());
    assert_eq!(trim_nuls(b"\0\0\0"), Vec::<u8>::new());
    assert_eq!(trim_nuls(b""), Vec::<u8>::new());
}
