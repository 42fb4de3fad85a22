//! The byte layout of messages between cells: the 24-byte routing header,
//! length-prefixed frames, channel-tagged payloads and the fixed control
//! messages.

use vstd::prelude::*;
use vstd::bytes::*;
use vstd::slice::slice_subrange;
use crate::error::CellError;

verus! {

broadcast use vstd::seq_lib::group_seq_properties;

/// Application requests.
pub const CHANNEL_APP: u8 = 0;
/// Replication traffic.
pub const CHANNEL_CONSENSUS: u8 = 1;
/// Operations: ping, status, metrics, shutdown, source.
pub const CHANNEL_OPS: u8 = 2;
/// Macro coordination between cells.
pub const CHANNEL_MACRO_COORDINATION: u8 = 3;
/// Routing and transport negotiation.
pub const CHANNEL_ROUTING: u8 = 4;
/// The tag of a frame forwarded by a router.
pub const ROUTED_TAG: u8 = 2;

/// Size of the encoded routing header.
pub const HEADER_LEN: usize = 24;
/// Time-to-live given to fresh requests.
pub const DEFAULT_TTL: u8 = 64;
/// The largest response a socket client accepts (100 MiB).
pub const MAX_RESPONSE_LEN: u32 = 104857600;

/// The routing header carried in front of every request.
#[derive(Debug, Clone, Copy, PartialEq, Eq, Structural)]
pub struct VesicleHeader {
    pub target_id: u64,
    pub source_id: u64,
    pub ttl: u8,
    pub flags: u8,
}

/// Little-endian bytes of a `u32`.
pub open spec fn le32(x: u32) -> Seq<u8> {
    spec_u32_to_le_bytes(x)
}

/// Big-endian bytes of a `u32`.
pub open spec fn be32(x: u32) -> Seq<u8> {
    seq![(x >> 24) as u8, (x >> 16) as u8, (x >> 8) as u8, x as u8]
}

/// `n` zero bytes.
pub open spec fn zeros(n: nat) -> Seq<u8> {
    Seq::new(n, |i: int| 0u8)
}

/// The 24-byte encoding of a header: both ids little-endian, then ttl,
/// flags and six bytes of padding.
pub open spec fn header_bytes(h: VesicleHeader) -> Seq<u8> {
    spec_u64_to_le_bytes(h.target_id) + spec_u64_to_le_bytes(h.source_id) + seq![h.ttl, h.flags]
        + zeros(6)
}

/// A length-prefixed frame: the body's length (as a `u32`) then the body.
pub open spec fn length_frame(body: Seq<u8>) -> Seq<u8> {
    le32(body.len() as u32) + body
}

/// The body of a request: header, channel byte, payload.
pub open spec fn request_body(h: VesicleHeader, channel: u8, payload: Seq<u8>) -> Seq<u8> {
    header_bytes(h) + seq![channel] + payload
}

/// The header of a fresh request from `source_id`.
pub open spec fn fresh_header(source_id: u64) -> VesicleHeader {
    VesicleHeader { target_id: 0, source_id, ttl: DEFAULT_TTL, flags: 0 }
}

/// "UPGRADE:SHM"
pub open spec fn upgrade_request_text() -> Seq<u8> {
    seq![0x55u8, 0x50, 0x47, 0x52, 0x41, 0x44, 0x45, 0x3a, 0x53, 0x48, 0x4d]
}

/// "UPGRADE:ACK"
pub open spec fn upgrade_ack_text() -> Seq<u8> {
    seq![0x55u8, 0x50, 0x47, 0x52, 0x41, 0x44, 0x45, 0x3a, 0x41, 0x43, 0x4b]
}

/// "__CELL_GENOME_REQUEST__"
pub open spec fn genome_request_text() -> Seq<u8> {
    seq![
        0x5fu8, 0x5f, 0x43, 0x45, 0x4c, 0x4c, 0x5f, 0x47, 0x45, 0x4e, 0x4f, 0x4d, 0x45, 0x5f,
        0x52, 0x45, 0x51, 0x55, 0x45, 0x53, 0x54, 0x5f, 0x5f,
    ]
}

/// The request asking a peer to move the connection to shared memory:
/// a frame whose body is a zero header, the routing channel, and the
/// length-prefixed text "UPGRADE:SHM".
pub open spec fn upgrade_request_frame() -> Seq<u8> {
    le32(40) + zeros(24) + seq![CHANNEL_ROUTING] + le32(11) + upgrade_request_text()
}

pub(crate) fn push_all(out: &mut Vec<u8>, data: &[u8])
    ensures
        final(out)@ == old(out)@ + data@,
{
    let mut i: usize = 0;
    let ghost start = out@;
    while i < data.len()
        invariant
            i <= data@.len(),
            out@ == start + data@.take(i as int),
        decreases data@.len() - i,
    {
        out.push(data[i]);
        i = i + 1;
        proof {
            assert(out@ =~= start + data@.take(i as int));
        }
    }
    proof {
        assert(data@.take(data@.len() as int) =~= data@);
    }
}

fn push_zeros(out: &mut Vec<u8>, n: usize)
    ensures
        final(out)@ == old(out)@ + zeros(n as nat),
{
    let mut i: usize = 0;
    let ghost start = out@;
    while i < n
        invariant
            i <= n,
            out@ == start + zeros(i as nat),
        decreases n - i,
    {
        out.push(0u8);
        i = i + 1;
        proof {
            assert(out@ =~= start + zeros(i as nat));
        }
    }
}

/// Byte-wise equality of two slices.
pub fn bytes_equal(a: &[u8], b: &[u8]) -> (r: bool)
    ensures
        r == (a@ == b@),
{
    if a.len() != b.len() {
        return false;
    }
    let mut i: usize = 0;
    while i < a.len()
        invariant
            a@.len() == b@.len(),
            i <= a@.len(),
            forall|k: int| 0 <= k < i ==> a@[k] == b@[k],
        decreases a@.len() - i,
    {
        if a[i] != b[i] {
            return false;
        }
        i = i + 1;
    }
    proof {
        assert(a@ =~= b@);
    }
    true
}

/// Whether `s` begins with `prefix`.
pub fn starts_with(s: &[u8], prefix: &[u8]) -> (r: bool)
    ensures
        r == (prefix@.len() <= s@.len() && s@.take(prefix@.len() as int) == prefix@),
{
    if prefix.len() > s.len() {
        return false;
    }
    let mut i: usize = 0;
    while i < prefix.len()
        invariant
            prefix@.len() <= s@.len(),
            i <= prefix@.len(),
            forall|k: int| 0 <= k < i ==> s@[k] == prefix@[k],
        decreases prefix@.len() - i,
    {
        if s[i] != prefix[i] {
            proof {
                assert(s@.take(prefix@.len() as int)[i as int] != prefix@[i as int]);
            }
            return false;
        }
        i = i + 1;
    }
    proof {
        assert(s@.take(prefix@.len() as int) =~= prefix@);
    }
    true
}

/// Copies `s[from..]`.
pub fn tail_from(s: &[u8], from: usize) -> (r: Vec<u8>)
    requires
        from <= s@.len(),
    ensures
        r@ == s@.skip(from as int),
{
    let mut out: Vec<u8> = Vec::new();
    let mut i: usize = from;
    while i < s.len()
        invariant
            from <= i <= s@.len(),
            out@ == s@.subrange(from as int, i as int),
        decreases s@.len() - i,
    {
        out.push(s[i]);
        i = i + 1;
        proof {
            assert(out@ =~= s@.subrange(from as int, i as int));
        }
    }
    proof {
        assert(out@ =~= s@.skip(from as int));
    }
    out
}

/// Encodes a routing header.
pub fn encode_header(h: &VesicleHeader) -> (r: Vec<u8>)
    ensures
        r@ == header_bytes(*h),
        r@.len() == HEADER_LEN,
{
    proof {
        lemma_auto_spec_u64_to_from_le_bytes();
    }
    let mut out = u64_to_le_bytes(h.target_id);
    let s = u64_to_le_bytes(h.source_id);
    push_all(&mut out, s.as_slice());
    out.push(h.ttl);
    out.push(h.flags);
    push_zeros(&mut out, 6);
    proof {
        assert(out@ =~= header_bytes(*h));
    }
    out
}

/// Decodes a routing header from the first 24 bytes of `b`.
pub fn decode_header(b: &[u8]) -> (r: Option<VesicleHeader>)
    ensures
        b@.len() < HEADER_LEN ==> r is None,
        b@.len() >= HEADER_LEN ==> (r matches Some(h) && {
            &&& h.target_id == spec_u64_from_le_bytes(b@.subrange(0, 8))
            &&& h.source_id == spec_u64_from_le_bytes(b@.subrange(8, 16))
            &&& h.ttl == b@[16]
            &&& h.flags == b@[17]
        }),
{
    if b.len() < HEADER_LEN {
        return None;
    }
    let t = u64_from_le_bytes(slice_subrange(b, 0, 8));
    let s = u64_from_le_bytes(slice_subrange(b, 8, 16));
    Some(VesicleHeader { target_id: t, source_id: s, ttl: b[16], flags: b[17] })
}

/// Decoding an encoded header gives the header back.
pub proof fn lemma_header_roundtrip(h: VesicleHeader)
    ensures
        header_bytes(h).len() == HEADER_LEN,
        spec_u64_from_le_bytes(header_bytes(h).subrange(0, 8)) == h.target_id,
        spec_u64_from_le_bytes(header_bytes(h).subrange(8, 16)) == h.source_id,
        header_bytes(h)[16] == h.ttl,
        header_bytes(h)[17] == h.flags,
{
    lemma_auto_spec_u64_to_from_le_bytes();
    let b = header_bytes(h);
    assert(b.subrange(0, 8) =~= spec_u64_to_le_bytes(h.target_id));
    assert(b.subrange(8, 16) =~= spec_u64_to_le_bytes(h.source_id));
}

/// Prefixes `body` with its length.
pub fn length_prefixed(body: &[u8]) -> (r: Vec<u8>)
    ensures
        r@ == length_frame(body@),
{
    let mut out = u32_to_le_bytes(body.len() as u32);
    push_all(&mut out, body);
    out
}

/// The body of a request frame.
pub fn encode_request_body(h: &VesicleHeader, channel: u8, payload: &[u8]) -> (r: Vec<u8>)
    ensures
        r@ == request_body(*h, channel, payload@),
{
    let mut out = encode_header(h);
    out.push(channel);
    push_all(&mut out, payload);
    proof {
        assert(out@ =~= request_body(*h, channel, payload@));
    }
    out
}

/// The full frame a client writes for a request on `channel` from node
/// `source_id`: `[len][header][channel][payload]`.
pub fn encode_request(source_id: u64, channel: u8, payload: &[u8]) -> (r: Vec<u8>)
    ensures
        r@ == length_frame(request_body(fresh_header(source_id), channel, payload@)),
{
    let h = VesicleHeader { target_id: 0, source_id, ttl: DEFAULT_TTL, flags: 0 };
    let body = encode_request_body(&h, channel, payload);
    length_prefixed(body.as_slice())
}

/// What a cell's membrane makes of a request body: the channel byte and the
/// payload after the header, or nothing when the body is too short to hold
/// a header and a channel.
pub open spec fn spec_parse_request(body: Seq<u8>) -> Option<(u8, Seq<u8>)> {
    if body.len() < HEADER_LEN + 1 {
        None
    } else {
        Some((body[HEADER_LEN as int], body.skip(HEADER_LEN + 1)))
    }
}

pub fn parse_request(body: &[u8]) -> (r: Option<(u8, Vec<u8>)>)
    ensures
        match (r, spec_parse_request(body@)) {
            (Some((c, p)), Some((sc, sp))) => c == sc && p@ == sp,
            (None, None) => true,
            _ => false,
        },
{
    if body.len() < HEADER_LEN + 1 {
        return None;
    }
    let c = body[HEADER_LEN];
    let p = tail_from(body, HEADER_LEN + 1);
    Some((c, p))
}

/// A membrane reads back exactly the channel and payload a client sent.
pub proof fn lemma_request_roundtrip(h: VesicleHeader, channel: u8, payload: Seq<u8>)
    ensures
        spec_parse_request(request_body(h, channel, payload)) == Some((channel, payload)),
{
    lemma_header_roundtrip(h);
    let b = request_body(h, channel, payload);
    assert(b[HEADER_LEN as int] == channel);
    assert(b.skip(HEADER_LEN + 1) =~= payload);
}

/// Splits a length-prefixed frame into its declared length and the rest.
pub fn split_frame(frame: &[u8]) -> (r: Option<(u32, Vec<u8>)>)
    ensures
        frame@.len() < 4 ==> r is None,
        frame@.len() >= 4 ==> (r matches Some((n, rest)) && n == spec_u32_from_le_bytes(
            frame@.take(4),
        ) && rest@ == frame@.skip(4)),
{
    if frame.len() < 4 {
        return None;
    }
    let n = u32_from_le_bytes(slice_subrange(frame, 0, 4));
    proof {
        assert(frame@.subrange(0, 4) =~= frame@.take(4));
    }
    Some((n, tail_from(frame, 4)))
}

/// A frame's length field and body come back as written, when the body's
/// length fits in 32 bits.
pub proof fn lemma_length_frame_roundtrip(body: Seq<u8>)
    requires
        body.len() <= u32::MAX,
    ensures
        spec_u32_from_le_bytes(length_frame(body).take(4)) == body.len(),
        length_frame(body).skip(4) == body,
{
    lemma_auto_spec_u32_to_from_le_bytes();
    assert(length_frame(body).take(4) =~= le32(body.len() as u32));
    assert(length_frame(body).skip(4) =~= body);
}

/// What a connection makes of a received body: channel byte and payload;
/// an empty body means the peer reset the connection.
pub open spec fn spec_parse_channel_message(body: Seq<u8>) -> Result<(u8, Seq<u8>), CellError> {
    if body.len() == 0 {
        Err(CellError::ConnectionReset)
    } else {
        Ok((body[0], body.skip(1)))
    }
}

pub fn parse_channel_message(body: &[u8]) -> (r: Result<(u8, Vec<u8>), CellError>)
    ensures
        match (r, spec_parse_channel_message(body@)) {
            (Ok((c, p)), Ok((sc, sp))) => c == sc && p@ == sp,
            (Err(e), Err(se)) => e == se,
            _ => false,
        },
{
    if body.len() == 0 {
        return Err(CellError::ConnectionReset);
    }
    Ok((body[0], tail_from(body, 1)))
}

/// The channel byte followed by the payload.
pub fn channel_message(channel: u8, payload: &[u8]) -> (r: Vec<u8>)
    ensures
        r@ == seq![channel] + payload@,
{
    let mut out: Vec<u8> = Vec::new();
    out.push(channel);
    push_all(&mut out, payload);
    proof {
        assert(out@ =~= seq![channel] + payload@);
    }
    out
}

/// Channel-tagged messages read back as written.
pub proof fn lemma_channel_message_roundtrip(channel: u8, payload: Seq<u8>)
    ensures
        spec_parse_channel_message(seq![channel] + payload) == Ok::<(u8, Seq<u8>), CellError>(
            (channel, payload),
        ),
{
    assert((seq![channel] + payload).skip(1) =~= payload);
}

/// The bytes of "UPGRADE:SHM".
pub fn upgrade_request_payload() -> (r: Vec<u8>)
    ensures
        r@ == upgrade_request_text(),
{
    let r: Vec<u8> = vec![0x55u8, 0x50, 0x47, 0x52, 0x41, 0x44, 0x45, 0x3a, 0x53, 0x48, 0x4d];
    proof {
        assert(r@ =~= upgrade_request_text());
    }
    r
}

/// The bytes of "UPGRADE:ACK".
pub fn upgrade_ack_payload() -> (r: Vec<u8>)
    ensures
        r@ == upgrade_ack_text(),
{
    let r: Vec<u8> = vec![0x55u8, 0x50, 0x47, 0x52, 0x41, 0x44, 0x45, 0x3a, 0x41, 0x43, 0x4b];
    proof {
        assert(r@ =~= upgrade_ack_text());
    }
    r
}

/// The bytes of the genome request.
pub fn genome_request() -> (r: Vec<u8>)
    ensures
        r@ == genome_request_text(),
{
    let r: Vec<u8> = vec![
        0x5fu8, 0x5f, 0x43, 0x45, 0x4c, 0x4c, 0x5f, 0x47, 0x45, 0x4e, 0x4f, 0x4d, 0x45, 0x5f,
        0x52, 0x45, 0x51, 0x55, 0x45, 0x53, 0x54, 0x5f, 0x5f,
    ];
    proof {
        assert(r@ =~= genome_request_text());
    }
    r
}

/// The frame asking the peer to upgrade the connection to shared memory.
pub fn encode_upgrade_request() -> (r: Vec<u8>)
    ensures
        r@ == upgrade_request_frame(),
{
    let mut out = u32_to_le_bytes(40);
    push_zeros(&mut out, 24);
    out.push(CHANNEL_ROUTING);
    let l = u32_to_le_bytes(11);
    push_all(&mut out, l.as_slice());
    let p = upgrade_request_payload();
    push_all(&mut out, p.as_slice());
    proof {
        assert(out@ =~= upgrade_request_frame());
    }
    out
}

/// Whether a peer's reply accepts the shared memory upgrade.
pub fn is_upgrade_ack(reply: &[u8]) -> (b: bool)
    ensures
        b == (reply@.len() >= 11 && reply@.take(11) == upgrade_ack_text()),
{
    let ack = upgrade_ack_payload();
    starts_with(reply, ack.as_slice())
}

/// Whether a response length announced by a peer is acceptable.
pub fn response_len_ok(len: u32) -> (b: bool)
    ensures
        b == (len <= MAX_RESPONSE_LEN),
{
    len <= MAX_RESPONSE_LEN
}

/// The frame a router forwards for a packet not meant for it: the routed
/// tag, the header with one less hop to live, and the payload. A packet
/// whose time to live is spent is dropped.
pub open spec fn spec_route(h: VesicleHeader, payload: Seq<u8>) -> Option<Seq<u8>> {
    if h.ttl == 0 {
        None
    } else {
        Some(
            seq![ROUTED_TAG] + header_bytes(VesicleHeader { ttl: (h.ttl - 1) as u8, ..h })
                + payload,
        )
    }
}

/// Forwarding spends exactly one hop and nothing else: a packet with time
/// to live left is forwarded as the routed tag, a header that decodes to
/// the same target, source and flags with one hop less, and the payload
/// unchanged; a packet with none left is dropped.
pub proof fn lemma_route_spends_one_hop(h: VesicleHeader, payload: Seq<u8>)
    ensures
        h.ttl == 0 ==> spec_route(h, payload) is None,
        h.ttl > 0 ==> (spec_route(h, payload) matches Some(out) && {
            &&& out.len() == 1 + HEADER_LEN + payload.len()
            &&& out[0] == ROUTED_TAG
            &&& spec_u64_from_le_bytes(out.subrange(1, 9)) == h.target_id
            &&& spec_u64_from_le_bytes(out.subrange(9, 17)) == h.source_id
            &&& out[17] == h.ttl - 1
            &&& out[18] == h.flags
            &&& out.subrange(1 + HEADER_LEN, out.len() as int) == payload
        }),
{
    if h.ttl > 0 {
        let f = VesicleHeader { ttl: (h.ttl - 1) as u8, ..h };
        lemma_header_roundtrip(f);
        let out = spec_route(h, payload)->0;
        let hb = header_bytes(f);
        assert(out.subrange(1, 9) =~= hb.subrange(0, 8));
        assert(out.subrange(9, 17) =~= hb.subrange(8, 16));
        assert(out[17] == hb[16]);
        assert(out[18] == hb[17]);
        assert(out.subrange(1 + HEADER_LEN, out.len() as int) =~= payload);
    }
}

pub fn route_packet(h: &VesicleHeader, payload: &[u8]) -> (r: Option<Vec<u8>>)
    ensures
        match (r, spec_route(*h, payload@)) {
            (Some(v), Some(s)) => v@ == s,
            (None, None) => true,
            _ => false,
        },
{
    if h.ttl == 0 {
        return None;
    }
    let fwd = VesicleHeader { target_id: h.target_id, source_id: h.source_id, ttl: h.ttl - 1, flags: h.flags };
    let mut out: Vec<u8> = Vec::new();
    out.push(ROUTED_TAG);
    let hb = encode_header(&fwd);
    push_all(&mut out, hb.as_slice());
    push_all(&mut out, payload);
    proof {
        assert(out@ =~= seq![ROUTED_TAG] + header_bytes(
            VesicleHeader { ttl: (h.ttl - 1) as u8, ..*h },
        ) + payload@);
    }
    Some(out)
}

/// A big-endian length-prefixed frame (the form used by the plain socket
/// transport): `[len:u32 BE][body]`.
pub open spec fn be_length_frame(body: Seq<u8>) -> Seq<u8> {
    be32(body.len() as u32) + body
}

fn u32_be(x: u32) -> (r: Vec<u8>)
    ensures
        r@ == be32(x),
{
    let mut out: Vec<u8> = Vec::new();
    out.push((x >> 24) as u8);
    out.push((x >> 16) as u8);
    out.push((x >> 8) as u8);
    out.push(x as u8);
    proof {
        assert(out@ =~= be32(x));
    }
    out
}

pub fn be_length_prefixed(body: &[u8]) -> (r: Vec<u8>)
    ensures
        r@ == be_length_frame(body@),
{
    let mut out = u32_be(body.len() as u32);
    push_all(&mut out, body);
    out
}

/// The connect request sent to a socket broker: opcode 1, the target's
/// name length (big-endian) and name.
pub open spec fn broker_connect_frame(name: Seq<u8>) -> Seq<u8> {
    seq![1u8] + be32(name.len() as u32) + name
}

pub fn encode_broker_connect(name: &[u8]) -> (r: Vec<u8>)
    ensures
        r@ == broker_connect_frame(name@),
{
    let mut out: Vec<u8> = Vec::new();
    out.push(1u8);
    let l = u32_be(name.len() as u32);
    push_all(&mut out, l.as_slice());
    push_all(&mut out, name);
    proof {
        assert(out@ =~= broker_connect_frame(name@));
    }
    out
}

} // verus!
