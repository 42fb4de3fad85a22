//! The serving side of a cell: what a connection does with each message it
//! receives, the answers to the operations channel, and the framing of the
//! replies a membrane sends back.

use vstd::prelude::*;
use vstd::string::StringSliceAdditionalSpecFns;
use crate::error::CellError;
use crate::wire::{
    bytes_equal, genome_request, upgrade_request_payload, upgrade_ack_payload, push_all,
    genome_request_text, upgrade_request_text, upgrade_ack_text, le32, length_frame,
    length_prefixed, CHANNEL_APP, CHANNEL_CONSENSUS, CHANNEL_OPS, CHANNEL_MACRO_COORDINATION,
};

verus! {

/// The most connections a membrane serves at once; beyond it, new
/// connections are shed.
pub const MAX_CONCURRENT_CONNECTIONS: usize = 10000;

/// What carries a served connection.
#[derive(Debug, Clone, Copy, PartialEq, Eq, Structural)]
pub enum LinkKind {
    Socket,
    SharedMemory,
}

/// What a served connection does with one received message.
#[derive(Debug, Clone, Copy, PartialEq, Eq, Structural)]
pub enum ServerAction {
    /// Run the shared memory handshake on the socket.
    Upgrade,
    /// Close the connection with this error.
    Refuse(CellError),
    /// Answer with the genome (or nothing when there is none).
    SendGenome,
    /// Decode the request, run the handler and answer with its response.
    InvokeHandler,
    /// Pass the message to the consensus engine and answer with nothing.
    ForwardConsensus,
    /// Answer "No Consensus".
    DeclineConsensus,
    /// Decode an operations request and answer it.
    AnswerOps,
    /// Pass the request to the macro coordination handler.
    Coordinate,
    /// Answer that macro coordination is not supported.
    DeclineCoordination,
    /// Answer "Unknown Channel".
    UnknownChannel,
}

/// What follows an application request on a served connection.
#[derive(Debug, Clone, Copy, PartialEq, Eq, Structural)]
pub enum RequestOutcome {
    /// Send the encoded response and read the next message.
    SendReply,
    /// End the connection with this error; nothing is sent.
    Close(CellError),
}

/// A request that does not decode ends the connection as an invalid header
/// (the handler is not run); a failed handler ends it as an I/O error; a
/// response that cannot be encoded ends it as a serialization failure.
/// Otherwise the response is sent.
pub open spec fn spec_request_outcome(decoded: bool, handled: bool, encoded: bool) -> RequestOutcome {
    if !decoded {
        RequestOutcome::Close(CellError::InvalidHeader)
    } else if !handled {
        RequestOutcome::Close(CellError::IoError)
    } else if !encoded {
        RequestOutcome::Close(CellError::SerializationFailure)
    } else {
        RequestOutcome::SendReply
    }
}

/// Decides what follows an application request: whether it decoded, whether
/// the handler succeeded and whether its response encoded. A step after one
/// that failed is not taken, and its flag is not read.
pub fn request_outcome(decoded: bool, handled: bool, encoded: bool) -> (r: RequestOutcome)
    ensures
        r == spec_request_outcome(decoded, handled, encoded),
{
    if !decoded {
        RequestOutcome::Close(CellError::InvalidHeader)
    } else if !handled {
        RequestOutcome::Close(CellError::IoError)
    } else if !encoded {
        RequestOutcome::Close(CellError::SerializationFailure)
    } else {
        RequestOutcome::SendReply
    }
}

/// The state of one served connection.
#[derive(Debug, Clone, Copy, PartialEq, Eq, Structural)]
pub struct ServerSession {
    pub link: LinkKind,
    pub shm_supported: bool,
    pub has_consensus: bool,
    pub has_coordination: bool,
}

/// The action for a message on `channel` with body `data`. The shared
/// memory request and the genome request are recognised by their bytes,
/// whatever the channel; everything else goes by channel.
pub open spec fn spec_server_action(s: ServerSession, channel: u8, data: Seq<u8>) -> ServerAction {
    if s.shm_supported && data == upgrade_request_text() {
        match s.link {
            LinkKind::Socket => ServerAction::Upgrade,
            LinkKind::SharedMemory => ServerAction::Refuse(CellError::CapabilityMissing),
        }
    } else if data == genome_request_text() {
        ServerAction::SendGenome
    } else if channel == CHANNEL_APP {
        ServerAction::InvokeHandler
    } else if channel == CHANNEL_CONSENSUS {
        if s.has_consensus { ServerAction::ForwardConsensus } else { ServerAction::DeclineConsensus }
    } else if channel == CHANNEL_OPS {
        ServerAction::AnswerOps
    } else if channel == CHANNEL_MACRO_COORDINATION {
        if s.has_coordination { ServerAction::Coordinate } else { ServerAction::DeclineCoordination }
    } else {
        ServerAction::UnknownChannel
    }
}

impl ServerSession {
    /// A fresh connection, carried by a socket.
    pub fn new(shm_supported: bool, has_consensus: bool, has_coordination: bool) -> (s: Self)
        ensures
            s.link == LinkKind::Socket,
            s.shm_supported == shm_supported,
            s.has_consensus == has_consensus,
            s.has_coordination == has_coordination,
    {
        ServerSession { link: LinkKind::Socket, shm_supported, has_consensus, has_coordination }
    }

    /// What to do with a received message.
    pub fn on_message(&self, channel: u8, data: &[u8]) -> (a: ServerAction)
        ensures
            a == spec_server_action(*self, channel, data@),
    {
        let up = upgrade_request_payload();
        if self.shm_supported && bytes_equal(data, up.as_slice()) {
            return match self.link {
                LinkKind::Socket => ServerAction::Upgrade,
                LinkKind::SharedMemory => ServerAction::Refuse(CellError::CapabilityMissing),
            };
        }
        let g = genome_request();
        if bytes_equal(data, g.as_slice()) {
            ServerAction::SendGenome
        } else if channel == CHANNEL_APP {
            ServerAction::InvokeHandler
        } else if channel == CHANNEL_CONSENSUS {
            if self.has_consensus { ServerAction::ForwardConsensus } else { ServerAction::DeclineConsensus }
        } else if channel == CHANNEL_OPS {
            ServerAction::AnswerOps
        } else if channel == CHANNEL_MACRO_COORDINATION {
            if self.has_coordination { ServerAction::Coordinate } else { ServerAction::DeclineCoordination }
        } else {
            ServerAction::UnknownChannel
        }
    }

    /// The handshake succeeded: the connection now runs over shared memory.
    pub fn upgraded(&mut self)
        ensures
            final(self).link == LinkKind::SharedMemory,
            final(self).shm_supported == old(self).shm_supported,
            final(self).has_consensus == old(self).has_consensus,
            final(self).has_coordination == old(self).has_coordination,
    {
        self.link = LinkKind::SharedMemory;
    }
}

/// A connection that has moved to shared memory refuses a second move.
pub proof fn lemma_upgrade_once(s: ServerSession, channel: u8)
    requires
        s.shm_supported,
        s.link == LinkKind::SharedMemory,
    ensures
        spec_server_action(s, channel, upgrade_request_text()) == ServerAction::Refuse(
            CellError::CapabilityMissing,
        ),
{
}

/// The genome answer: the genome's UTF-8 bytes, or nothing.
pub open spec fn spec_genome_reply(genome: Option<Seq<char>>) -> Seq<u8> {
    match genome {
        Some(json) => vstd::utf8::encode_utf8(json),
        None => Seq::empty(),
    }
}

pub fn genome_reply(genome: &Option<String>) -> (r: Vec<u8>)
    ensures
        r@ == spec_genome_reply(
            match genome {
                Some(j) => Some(j@),
                None => None,
            },
        ),
{
    let mut out: Vec<u8> = Vec::new();
    match genome {
        Some(j) => {
            let b = j.as_str().as_bytes();
            push_all(&mut out, b);
        },
        None => {},
    }
    out
}

/// "No Consensus"
pub open spec fn no_consensus_text() -> Seq<u8> {
    seq![0x4eu8, 0x6f, 0x20, 0x43, 0x6f, 0x6e, 0x73, 0x65, 0x6e, 0x73, 0x75, 0x73]
}

/// "Unknown Channel"
pub open spec fn unknown_channel_text() -> Seq<u8> {
    seq![0x55u8, 0x6e, 0x6b, 0x6e, 0x6f, 0x77, 0x6e, 0x20, 0x43, 0x68, 0x61, 0x6e, 0x6e, 0x65, 0x6c]
}

/// The answer on the consensus channel: nothing once the message has been
/// handed to the engine, "No Consensus" when there is no engine.
pub fn consensus_reply(has_consensus: bool) -> (r: Vec<u8>)
    ensures
        r@ == (if has_consensus { Seq::<u8>::empty() } else { no_consensus_text() }),
{
    if has_consensus {
        Vec::new()
    } else {
        let r: Vec<u8> = vec![0x4eu8, 0x6f, 0x20, 0x43, 0x6f, 0x6e, 0x73, 0x65, 0x6e, 0x73, 0x75, 0x73];
        proof {
            assert(r@ =~= no_consensus_text());
        }
        r
    }
}

/// The answer on a channel nobody serves.
pub fn unknown_channel_reply() -> (r: Vec<u8>)
    ensures
        r@ == unknown_channel_text(),
{
    let r: Vec<u8> = vec![
        0x55u8, 0x6e, 0x6b, 0x6e, 0x6f, 0x77, 0x6e, 0x20, 0x43, 0x68, 0x61, 0x6e, 0x6e, 0x65, 0x6c,
    ];
    proof {
        assert(r@ =~= unknown_channel_text());
    }
    r
}

/// The error message answered when macro coordination is not served.
pub fn coordination_unsupported_message() -> (s: String)
    ensures
        s@ == "Macro coordination not supported"@,
{
    String::from_str("Macro coordination not supported")
}

/// What the server writes once a client has proved it holds the token:
/// the acknowledgement's length, then the acknowledgement.
pub fn upgrade_ack_frame() -> (r: Vec<u8>)
    ensures
        r@ == le32(11) + upgrade_ack_text(),
{
    let ack = upgrade_ack_payload();
    length_prefixed(ack.as_slice())
}

/// The name of one of the two rings a server creates for an upgraded
/// connection: `<cell>_server_rx` or `<cell>_server_tx`.
pub fn server_ring_name(cell_name: &str, receive: bool) -> (s: String)
    ensures
        s@ == cell_name@ + (if receive { "_server_rx"@ } else { "_server_tx"@ }),
{
    let mut s = String::from_str(cell_name);
    if receive {
        s.append("_server_rx");
    } else {
        s.append("_server_tx");
    }
    s
}

/// A request on the operations channel.
#[derive(Debug, Clone, Copy, PartialEq, Eq, Structural)]
pub enum OpsRequest {
    Ping,
    Status,
    Metrics,
    Shutdown,
    GetSource,
}

/// The metrics answered on the operations channel.
#[derive(Debug, Clone)]
pub struct OpsMetrics {
    pub requests_total: u64,
    pub requests_success: u64,
    pub requests_failed: u64,
    pub latency_histogram: Vec<u64>,
    pub connections_active: u64,
    pub bytes_sent: u64,
    pub bytes_received: u64,
}

/// An answer on the operations channel.
#[derive(Debug, Clone)]
pub enum OpsResponse {
    Pong,
    Status { name: String, uptime_secs: u64, memory_usage: u64, consensus_role: String },
    Metrics(OpsMetrics),
    ShutdownAck,
    Source { bytes: Vec<u8> },
}

/// Whole seconds from `start_nanos` to `now_nanos`; none when the clock
/// reads earlier than the start.
pub fn uptime_secs(now_nanos: u64, start_nanos: u64) -> (s: u64)
    ensures
        s == (if now_nanos >= start_nanos { (now_nanos - start_nanos) / 1_000_000_000 } else { 0 }),
{
    if now_nanos >= start_nanos {
        (now_nanos - start_nanos) / 1_000_000_000
    } else {
        0
    }
}

/// The source file a cell answers with: its `src/main.rs` when there is
/// one, else its `src/lib.rs`.
pub fn source_file(main_exists: bool) -> (s: &'static str)
    ensures
        s@ == (if main_exists { "src/main.rs"@ } else { "src/lib.rs"@ }),
{
    if main_exists { "src/main.rs" } else { "src/lib.rs" }
}

/// Whether `r` is the answer to `req` for the cell `name`, up `uptime`
/// seconds, with or without consensus, whose source reads `source`.
pub open spec fn ops_answer_is(
    r: OpsResponse,
    req: OpsRequest,
    name: Seq<char>,
    uptime: u64,
    consensus_enabled: bool,
    source: Seq<u8>,
) -> bool {
    match req {
        OpsRequest::Ping => r is Pong,
        OpsRequest::Status => match r {
            OpsResponse::Status { name: n, uptime_secs, memory_usage, consensus_role } => {
                &&& n@ == name
                &&& uptime_secs == uptime
                &&& memory_usage == 0
                &&& consensus_role@ == (if consensus_enabled { "Enabled"@ } else { "Disabled"@ })
            },
            _ => false,
        },
        OpsRequest::Metrics => match r {
            OpsResponse::Metrics(m) => {
                &&& m.requests_total == 0
                &&& m.requests_success == 0
                &&& m.requests_failed == 0
                &&& m.latency_histogram@.len() == 0
                &&& m.connections_active == 0
                &&& m.bytes_sent == 0
                &&& m.bytes_received == 0
            },
            _ => false,
        },
        OpsRequest::Shutdown => r is ShutdownAck,
        OpsRequest::GetSource => match r {
            OpsResponse::Source { bytes } => bytes@ == source,
            _ => false,
        },
    }
}

/// Answers an operations request. The second result says whether the cell
/// is to shut down, which only a shutdown request asks.
pub fn answer_ops(
    req: OpsRequest,
    cell_name: &str,
    uptime: u64,
    consensus_enabled: bool,
    source: Vec<u8>,
) -> (r: (OpsResponse, bool))
    ensures
        ops_answer_is(r.0, req, cell_name@, uptime, consensus_enabled, source@),
        r.1 == (req == OpsRequest::Shutdown),
{
    match req {
        OpsRequest::Ping => (OpsResponse::Pong, false),
        OpsRequest::Status => {
            let role = if consensus_enabled {
                String::from_str("Enabled")
            } else {
                String::from_str("Disabled")
            };
            (
                OpsResponse::Status {
                    name: String::from_str(cell_name),
                    uptime_secs: uptime,
                    memory_usage: 0,
                    consensus_role: role,
                },
                false,
            )
        },
        OpsRequest::Metrics => (
            OpsResponse::Metrics(
                OpsMetrics {
                    requests_total: 0,
                    requests_success: 0,
                    requests_failed: 0,
                    latency_histogram: Vec::new(),
                    connections_active: 0,
                    bytes_sent: 0,
                    bytes_received: 0,
                },
            ),
            false,
        ),
        OpsRequest::Shutdown => (OpsResponse::ShutdownAck, true),
        OpsRequest::GetSource => (OpsResponse::Source { bytes: source }, false),
    }
}

/// What a frame-reading membrane does with one received body.
#[derive(Debug, Clone, PartialEq, Eq)]
pub enum FrameAction {
    /// Skip the body: too short to hold a header and a channel, or not on
    /// the application channel.
    Skip,
    /// Hand the payload after the header and channel byte to the handler.
    Dispatch(Vec<u8>),
}

/// Bodies shorter than a header and a channel byte are skipped, as are
/// bodies on any channel but the application's.
pub open spec fn frame_dispatches(body: Seq<u8>) -> bool {
    body.len() >= 25 && body[24] == CHANNEL_APP
}

/// The framed error a membrane answers with: the length of the text, then
/// the text, `prefix` followed by `detail`.
pub open spec fn error_frame(prefix: Seq<char>, detail: Seq<char>) -> Seq<u8> {
    length_frame(vstd::utf8::encode_utf8(prefix + detail))
}

/// "__GENOME__", the genome request of the plain socket protocol.
pub open spec fn legacy_genome_text() -> Seq<u8> {
    seq![0x5fu8, 0x5f, 0x47, 0x45, 0x4e, 0x4f, 0x4d, 0x45, 0x5f, 0x5f]
}

/// How a request on the frame protocol went.
#[derive(Debug, Clone, PartialEq, Eq)]
pub enum FrameOutcome {
    /// The payload did not validate as a request; the detail says why.
    Invalid(String),
    /// The handler failed with this text.
    Failed(String),
    /// The handler answered; its encoded response, if it could be encoded.
    Handled(Option<Vec<u8>>),
}

/// A cell's listening side.
pub struct Membrane;

impl Membrane {
    /// Whether a message on the plain socket protocol asks for the genome.
    pub fn is_legacy_genome_request(data: &[u8]) -> (b: bool)
        ensures
            b == (data@ == legacy_genome_text()),
    {
        let g: Vec<u8> = vec![0x5fu8, 0x5f, 0x47, 0x45, 0x4e, 0x4f, 0x4d, 0x45, 0x5f, 0x5f];
        proof {
            assert(g@ =~= legacy_genome_text());
        }
        bytes_equal(data, g.as_slice())
    }

    /// Whether a request on the network protocol asks for the genome.
    pub fn is_genome_request(data: &[u8]) -> (b: bool)
        ensures
            b == (data@ == genome_request_text()),
    {
        let g = genome_request();
        bytes_equal(data, g.as_slice())
    }

    /// Whether a membrane serving `active` connections admits one more.
    pub fn admits_connection(active: usize) -> (b: bool)
        ensures
            b == (active < MAX_CONCURRENT_CONNECTIONS),
    {
        active < MAX_CONCURRENT_CONNECTIONS
    }

    pub fn frame_action(body: &[u8]) -> (r: FrameAction)
        ensures
            frame_dispatches(body@) <==> r is Dispatch,
            r matches FrameAction::Dispatch(p) ==> p@ == body@.skip(25),
    {
        if body.len() < 25 || body[24] != CHANNEL_APP {
            FrameAction::Skip
        } else {
            let p = crate::wire::tail_from(body, 25);
            FrameAction::Dispatch(p)
        }
    }

    /// The answer to a request that does not decode.
    pub fn validation_error_frame(detail: &str) -> (r: Vec<u8>)
        ensures
            r@ == error_frame("Request validation failed: "@, detail@),
    {
        let mut s = String::from_str("Request validation failed: ");
        s.append(detail);
        let b = s.as_str().as_bytes();
        length_prefixed(b)
    }

    /// The answer to a request whose handler failed.
    pub fn handler_error_frame(detail: &str) -> (r: Vec<u8>)
        ensures
            r@ == error_frame("Handler error: "@, detail@),
    {
        let mut s = String::from_str("Handler error: ");
        s.append(detail);
        let b = s.as_str().as_bytes();
        length_prefixed(b)
    }

    /// The one framed reply to a dispatched request: the validation error,
    /// the handler error, or the encoded response; nothing when the response
    /// could not be encoded.
    pub fn frame_reply(outcome: &FrameOutcome) -> (r: Option<Vec<u8>>)
        ensures
            match outcome {
                FrameOutcome::Invalid(d) => r matches Some(b) && b@ == error_frame(
                    "Request validation failed: "@,
                    d@,
                ),
                FrameOutcome::Failed(d) => r matches Some(b) && b@ == error_frame(
                    "Handler error: "@,
                    d@,
                ),
                FrameOutcome::Handled(Some(body)) => r matches Some(b) && b@ == length_frame(
                    body@,
                ),
                FrameOutcome::Handled(None) => r is None,
            },
    {
        match outcome {
            FrameOutcome::Invalid(d) => Some(Self::validation_error_frame(d.as_str())),
            FrameOutcome::Failed(d) => Some(Self::handler_error_frame(d.as_str())),
            FrameOutcome::Handled(Some(body)) => Some(length_prefixed(body.as_slice())),
            FrameOutcome::Handled(None) => None,
        }
    }

    /// The file names a membrane binds under its socket directory.
    pub fn socket_file_name(name: &str) -> (s: String)
        ensures
            s@ == name@ + ".sock"@,
    {
        let mut s = String::from_str(name);
        s.append(".sock");
        s
    }

    pub fn lock_file_name(name: &str) -> (s: String)
        ensures
            s@ == name@ + ".lock"@,
    {
        let mut s = String::from_str(name);
        s.append(".lock");
        s
    }
}

} // verus!
