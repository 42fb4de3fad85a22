//! Identities derived by hashing: node ids from names, heartbeat node ids,
//! instance signatures, and the challenge-response that guards the shared
//! memory upgrade.

use vstd::prelude::*;
use vstd::bytes::*;
use vstd::string::StringSliceAdditionalSpecFns;
use vstd::slice::slice_subrange;

verus! {

/// The BLAKE3 digest of `data`.
pub uninterp spec fn blake3_digest(data: Seq<u8>) -> Seq<u8>;

/// `blake3::hash`: the 32-byte BLAKE3 digest of `data` (`blake3::OUT_LEN`
/// is 32). The digest itself is not stated; it is named `blake3_digest`.
#[verifier::external_body]
fn blake3_hash(data: &[u8]) -> (r: Vec<u8>)
    ensures
        r@ == blake3_digest(data@),
        r@.len() == 32,
{
    blake3::hash(data).as_bytes().to_vec()
}

/// `rand::random::<u64>()`: a random number; nothing is stated of it.
#[verifier::external_body]
pub(crate) fn random_u64() -> u64 {
    rand::random::<u64>()
}

/// The 64-bit id of the cell named `name`: the first eight bytes of the
/// BLAKE3 digest of the name, read little-endian.
pub open spec fn spec_node_id(name: Seq<u8>) -> u64 {
    spec_u64_from_le_bytes(blake3_digest(name).take(8))
}

pub fn node_id_of(name: &str) -> (id: u64)
    ensures
        id == spec_node_id(name.spec_bytes()),
{
    let h = blake3_hash(name.as_bytes());
    let first = slice_subrange(h.as_slice(), 0, 8);
    proof {
        assert(h@.subrange(0, 8) =~= h@.take(8));
    }
    u64_from_le_bytes(first)
}

/// A lowercase hexadecimal digit.
pub open spec fn hex_digit(n: u8) -> char {
    if n < 10 { (('0' as u8) + n) as char } else { (('a' as u8) + n - 10) as char }
}

/// Lowercase hexadecimal, two digits per byte, high nibble first.
pub open spec fn hex(data: Seq<u8>) -> Seq<char>
    decreases data.len(),
{
    if data.len() == 0 {
        Seq::empty()
    } else {
        hex(data.drop_last()) + seq![hex_digit(data.last() / 16), hex_digit(data.last() % 16)]
    }
}

fn hex_digit_str(n: u8) -> (s: &'static str)
    requires
        n < 16,
    ensures
        s@ == seq![hex_digit(n)],
{
    proof {
        reveal_strlit("0");
        reveal_strlit("1");
        reveal_strlit("2");
        reveal_strlit("3");
        reveal_strlit("4");
        reveal_strlit("5");
        reveal_strlit("6");
        reveal_strlit("7");
        reveal_strlit("8");
        reveal_strlit("9");
        reveal_strlit("a");
        reveal_strlit("b");
        reveal_strlit("c");
        reveal_strlit("d");
        reveal_strlit("e");
        reveal_strlit("f");
    }
    let s = if n == 0 { "0" }
    else if n == 1 { "1" }
    else if n == 2 { "2" }
    else if n == 3 { "3" }
    else if n == 4 { "4" }
    else if n == 5 { "5" }
    else if n == 6 { "6" }
    else if n == 7 { "7" }
    else if n == 8 { "8" }
    else if n == 9 { "9" }
    else if n == 10 { "a" }
    else if n == 11 { "b" }
    else if n == 12 { "c" }
    else if n == 13 { "d" }
    else if n == 14 { "e" }
    else { "f" };
    proof {
        assert(s@ =~= seq![hex_digit(n)]);
    }
    s
}

/// Encodes bytes as lowercase hexadecimal.
pub fn to_hex(data: &[u8]) -> (s: String)
    ensures
        s@ == hex(data@),
{
    let mut out = String::new();
    let mut i: usize = 0;
    while i < data.len()
        invariant
            i <= data@.len(),
            out@ == hex(data@.take(i as int)),
        decreases data@.len() - i,
    {
        let b = data[i];
        out.append(hex_digit_str(b / 16));
        out.append(hex_digit_str(b % 16));
        proof {
            assert(data@.take(i + 1).drop_last() =~= data@.take(i as int));
            assert(data@.take(i + 1).last() == b);
        }
        i = i + 1;
    }
    proof {
        assert(data@.take(data@.len() as int) =~= data@);
    }
    out
}

/// The node id a heartbeat announces: the hex BLAKE3 digest of the cell
/// name (UTF-8) followed by a random nonce (little-endian).
pub open spec fn spec_heartbeat_node_id(cell_name: Seq<char>, nonce: u64) -> Seq<char> {
    hex(blake3_digest(vstd::utf8::encode_utf8(cell_name) + spec_u64_to_le_bytes(nonce)))
}

pub fn heartbeat_node_id(cell_name: &str, nonce: u64) -> (s: String)
    ensures
        s@ == spec_heartbeat_node_id(cell_name@, nonce),
{
    let mut input: Vec<u8> = Vec::new();
    let name = cell_name.as_bytes();
    let mut i: usize = 0;
    while i < name.len()
        invariant
            i <= name@.len(),
            input@ == name@.take(i as int),
        decreases name@.len() - i,
    {
        input.push(name[i]);
        i = i + 1;
        proof {
            assert(input@ =~= name@.take(i as int));
        }
    }
    proof {
        assert(name@.take(name@.len() as int) =~= name@);
    }
    let nb = u64_to_le_bytes(nonce);
    let mut j: usize = 0;
    while j < nb.len()
        invariant
            j <= nb@.len(),
            input@ == name@ + nb@.take(j as int),
        decreases nb@.len() - j,
    {
        input.push(nb[j]);
        j = j + 1;
        proof {
            assert(input@ =~= name@ + nb@.take(j as int));
        }
    }
    proof {
        assert(nb@.take(nb@.len() as int) =~= nb@);
    }
    let h = blake3_hash(input.as_slice());
    to_hex(h.as_slice())
}

/// The signature of an instance announcement: `node_id:endpoint`.
pub fn sign_instance(node_id: &str, endpoint: &str) -> (s: String)
    ensures
        s@ == node_id@ + ":"@ + endpoint@,
{
    let mut s = String::from_str(node_id);
    s.append(":");
    s.append(endpoint);
    s
}

/// A cell's heartbeat announcer.
pub struct HeartbeatService {
    pub cell_name: String,
    pub node_id: String,
    pub endpoint: String,
}

impl HeartbeatService {
    /// A heartbeat for `cell_name` at `endpoint` whose node id is derived
    /// from the name and `nonce`.
    pub fn with_nonce(cell_name: String, endpoint: String, nonce: u64) -> (h: Self)
        ensures
            h.cell_name@ == cell_name@,
            h.endpoint@ == endpoint@,
            h.node_id@ == spec_heartbeat_node_id(cell_name@, nonce),
    {
        let node_id = heartbeat_node_id(cell_name.as_str(), nonce);
        HeartbeatService { cell_name, node_id, endpoint }
    }

    /// A heartbeat for `cell_name` at `endpoint` with a node id derived from
    /// the name and a fresh random nonce.
    pub fn new(cell_name: String, endpoint: String) -> (h: Self)
        ensures
            h.cell_name@ == cell_name@,
            h.endpoint@ == endpoint@,
            exists|nonce: u64| h.node_id@ == spec_heartbeat_node_id(cell_name@, nonce),
    {
        let nonce = random_u64();
        Self::with_nonce(cell_name, endpoint, nonce)
    }

    /// The announcement of this instance, stamped with the time `now`
    /// (RFC 3339).
    pub fn instance_info(&self, now: String) -> (i: crate::protocol::InstanceInfo)
        ensures
            i.node_id@ == self.node_id@,
            i.endpoint@ == self.endpoint@,
            i.region is None,
            i.last_heartbeat == now,
            i.signature@ == self.node_id@ + ":"@ + self.endpoint@,
    {
        crate::protocol::InstanceInfo {
            node_id: self.node_id.clone(),
            endpoint: self.endpoint.clone(),
            region: None,
            last_heartbeat: now,
            signature: self.signature(),
        }
    }

    /// The signature this node attaches to its announcements.
    pub fn signature(&self) -> (s: String)
        ensures
            s@ == self.node_id@ + ":"@ + self.endpoint@,
    {
        sign_instance(self.node_id.as_str(), self.endpoint.as_str())
    }
}

/// The answer to a shared memory challenge: the BLAKE3 digest of the
/// challenge followed by the shared token.
pub open spec fn spec_auth_response(challenge: Seq<u8>, token: Seq<u8>) -> Seq<u8> {
    blake3_digest(challenge + token)
}

fn concat_bytes(a: &[u8], b: &[u8]) -> (r: Vec<u8>)
    ensures
        r@ == a@ + b@,
{
    let mut out: Vec<u8> = Vec::new();
    let mut i: usize = 0;
    while i < a.len()
        invariant
            i <= a@.len(),
            out@ == a@.take(i as int),
        decreases a@.len() - i,
    {
        out.push(a[i]);
        i = i + 1;
        proof {
            assert(out@ =~= a@.take(i as int));
        }
    }
    proof {
        assert(a@.take(a@.len() as int) =~= a@);
    }
    let mut j: usize = 0;
    while j < b.len()
        invariant
            j <= b@.len(),
            out@ == a@ + b@.take(j as int),
        decreases b@.len() - j,
    {
        out.push(b[j]);
        j = j + 1;
        proof {
            assert(out@ =~= a@ + b@.take(j as int));
        }
    }
    proof {
        assert(b@.take(b@.len() as int) =~= b@);
    }
    out
}

/// The answer a client gives to `challenge`.
pub fn auth_response(challenge: &[u8], token: &[u8]) -> (r: Vec<u8>)
    ensures
        r@ == spec_auth_response(challenge@, token@),
{
    let input = concat_bytes(challenge, token);
    blake3_hash(input.as_slice())
}

/// Whether `response` answers `challenge` for the shared token.
pub fn verify_auth_response(challenge: &[u8], token: &[u8], response: &[u8]) -> (b: bool)
    ensures
        b == (response@ == spec_auth_response(challenge@, token@)),
{
    let expected = auth_response(challenge, token);
    crate::wire::bytes_equal(response, expected.as_slice())
}

/// The shared token as the upgrade handshake uses it: its BLAKE3 digest.
pub fn token_digest(raw: &[u8]) -> (r: Vec<u8>)
    ensures
        r@ == blake3_digest(raw@),
        r@.len() == 32,
{
    blake3_hash(raw)
}

/// Why a stored token file is refused.
#[derive(Debug, Clone, Copy, PartialEq, Eq, Structural)]
pub enum TokenFileError {
    /// The file belongs to another user
    WrongOwner { owner: u32, expected: u32 },
    /// The file may be read or written by others (permission bits given)
    WrongMode { mode: u32 },
}

/// A token file is accepted only when the current user owns it and its
/// permission bits are exactly 0600.
pub open spec fn spec_check_token_file(owner: u32, current: u32, mode: u32) -> Result<(), TokenFileError> {
    if owner != current {
        Err(TokenFileError::WrongOwner { owner, expected: current })
    } else if mode & 0o777 != 0o600 {
        Err(TokenFileError::WrongMode { mode: mode & 0o777 })
    } else {
        Ok(())
    }
}

pub fn check_token_file(owner: u32, current: u32, mode: u32) -> (r: Result<(), TokenFileError>)
    ensures
        r == spec_check_token_file(owner, current, mode),
{
    if owner != current {
        Err(TokenFileError::WrongOwner { owner, expected: current })
    } else if mode & 0o777 != 0o600 {
        Err(TokenFileError::WrongMode { mode: mode & 0o777 })
    } else {
        Ok(())
    }
}

/// Only a peer running as the same user may upgrade to shared memory.
pub fn peer_allowed(peer_uid: u32, my_uid: u32) -> (b: bool)
    ensures
        b == (peer_uid == my_uid),
{
    peer_uid == my_uid
}

} // verus!
