use cell_sdk::error::CellError;
use cell_sdk::membrane::{
    answer_ops, consensus_reply, coordination_unsupported_message, genome_reply, server_ring_name,
    request_outcome, source_file, unknown_channel_reply, upgrade_ack_frame, uptime_secs,
    FrameAction, FrameOutcome, LinkKind, Membrane, OpsRequest, OpsResponse, RequestOutcome,
    ServerAction, ServerSession,
};

#[test]
fn server_actions_by_channel_and_content() {
    let s = ServerSession::new(true, false, true);
    assert_eq!(s.on_message(0, b"UPGRADE:SHM"), ServerAction::Upgrade);
    assert_eq!(s.on_message(9, b"__CELL_GENOME_REQUEST__"), ServerAction::SendGenome);
    assert_eq!(s.on_message(0, b"req"), ServerAction::InvokeHandler);
    assert_eq!(s.on_message(1, b"vote"), ServerAction::DeclineConsensus);
    assert_eq!(s.on_message(2, b"x"), ServerAction::AnswerOps);
    assert_eq!(s.on_message(3, b"x"), ServerAction::Coordinate);
    assert_eq!(s.on_message(4, b"x"), ServerAction::UnknownChannel);
    let t = ServerSession::new(false, true, false);
    assert_eq!(t.on_message(0, b"UPGRADE:SHM"), ServerAction::InvokeHandler);
    assert_eq!(t.on_message(1, b"vote"), ServerAction::ForwardConsensus);
    assert_eq!(t.on_message(3, b"x"), ServerAction::DeclineCoordination);
}

#[test]
fn a_connection_upgrades_only_once() {
    let mut s = ServerSession::new(true, false, false);
    s.upgraded();
    assert_eq!(s.link, LinkKind::SharedMemory);
    assert_eq!(
        s.on_message(0, b"UPGRADE:SHM"),
        ServerAction::Refuse(CellError::CapabilityMissing)
    );
}

#[test]
fn replies() {
    assert_eq!(genome_reply(&Some("{\"a\":1}".to_string())), b"{\"a\":1}".to_vec());
    assert_eq!(genome_reply(&None), Vec::<u8>::new());
    assert_eq!(consensus_reply(true), Vec::<u8>::new());
    assert_eq!(consensus_reply(false), b"No Consensus".to_vec());
    assert_eq!(unknown_channel_reply(), b"Unknown Channel".to_vec());
    assert_eq!(coordination_unsupported_message(), "Macro coordination not supported");
    let mut ack = 11u32.to_le_bytes().to_vec();
    ack.extend_from_slice(b"UPGRADE:ACK");
    assert_eq!(upgrade_ack_frame(), ack);
    assert_eq!(server_ring_name("db", true), "db_server_rx");
    assert_eq!(server_ring_name("db", false), "db_server_tx");
}

#[test]
fn operations_channel_answers() {
    let (r, stop) = answer_ops(OpsRequest::Status, "ledger", 42, true, vec![]);
    assert!(!stop);
    match r {
        OpsResponse::Status { name, uptime_secs, memory_usage, consensus_role } => {
            assert_eq!(name, "ledger");
            assert_eq!(uptime_secs, 42);
            assert_eq!(memory_usage, 0);
            assert_eq!(consensus_role, "Enabled");
        }
        _ => panic!("expected a status"),
    }
    let (r, _) = answer_ops(OpsRequest::Status, "ledger", 1, false, vec![]);
    assert!(matches!(r, OpsResponse::Status { consensus_role, .. } if consensus_role == "Disabled"));
    let (r, stop) = answer_ops(OpsRequest::Shutdown, "x", 0, false, vec![]);
    assert!(stop);
    assert!(matches!(r, OpsResponse::ShutdownAck));
    let (r, _) = answer_ops(OpsRequest::Ping, "x", 0, false, vec![]);
    assert!(matches!(r, OpsResponse::Pong));
    let (r, _) = answer_ops(OpsRequest::GetSource, "x", 0, false, b"fn main(){}".to_vec());
    assert!(matches!(r, OpsResponse::Source { bytes } if bytes == b"fn main(){}".to_vec()));
    let (r, _) = answer_ops(OpsRequest::Metrics, "x", 0, false, vec![]);
    assert!(matches!(r, OpsResponse::Metrics(m) if m.requests_total == 0 && m.latency_histogram.is_empty()));
    assert_eq!(uptime_secs(5_500_000_000, 1_000_000_000), 4);
    assert_eq!(uptime_secs(1, 2), 0);
    assert_eq!(source_file(true), "src/main.rs");
    assert_eq!(source_file(false), "src/lib.rs");
}

#[test]
fn frame_reading_membrane() {
    let mut body = vec![0u8; 24];
    body.push(0);
    body.extend_from_slice(b"payload");
    assert_eq!(Membrane::frame_action(&body), FrameAction::Dispatch(b"payload".to_vec()));
    let mut other = vec![0u8; 24];
    other.push(2);
    assert_eq!(Membrane::frame_action(&other), FrameAction::Skip);
    assert_eq!(Membrane::frame_action(&[0u8; 24]), FrameAction::Skip);
    let mut want = 30u32.to_le_bytes().to_vec();
    want.extend_from_slice(b"Request validation failed: bad");
    assert_eq!(Membrane::validation_error_frame("bad"), want);
    let mut want = 19u32.to_le_bytes().to_vec();
    want.extend_from_slice(b"Handler error: oops");
    assert_eq!(Membrane::handler_error_frame("oops"), want);
    assert_eq!(Membrane::socket_file_name("db"), "db.sock");
    assert_eq!(Membrane::lock_file_name("db"), "db.lock");
    assert!(Membrane::admits_connection(9_999));
    assert!(!Membrane::admits_connection(10_000));
    assert!(Membrane::is_legacy_genome_request(b"__GENOME__"));
    assert!(!Membrane::is_legacy_genome_request(b"__GENOME"));
    assert!(Membrane::is_genome_request(b"__CELL_GENOME_REQUEST__"));
}

#[test]
fn request_outcomes_after_decode_and_handler() {
    assert_eq!(request_outcome(false, false, false), RequestOutcome::Close(CellError::InvalidHeader));
    assert_eq!(request_outcome(true, false, false), RequestOutcome::Close(CellError::IoError));
    assert_eq!(
        request_outcome(true, true, false),
        RequestOutcome::Close(CellError::SerializationFailure)
    );
    assert_eq!(request_outcome(true, true, true), RequestOutcome::SendReply);
}

#[test]
fn frame_replies_by_outcome() {
    let v = Membrane::frame_reply(&FrameOutcome::Invalid("bad".to_string())).unwrap();
    let text = b"Request validation failed: bad";
    assert_eq!(&v[..4], &(text.len() as u32).to_le_bytes());
    assert_eq!(&v[4..], text);
    let h = Membrane::frame_reply(&FrameOutcome::Failed("boom".to_string())).unwrap();
    assert_eq!(&h[4..], b"Handler error: boom");
    let ok = Membrane::frame_reply(&FrameOutcome::Handled(Some(vec![1, 2, 3]))).unwrap();
    assert_eq!(ok, vec![3, 0, 0, 0, 1, 2, 3]);
    assert_eq!(Membrane::frame_reply(&FrameOutcome::Handled(None)), None);
}
