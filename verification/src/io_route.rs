//! How a cell reaches another: through the IO router when it hands over a
//! socket, else through the neighbor link in the workspace, else through
//! the global registry; and how router files and pipe names are read.

use vstd::prelude::*;
use vstd::bytes::*;
use crate::identity::hex;

verus! {

/// The way one attempt reaches a target cell.
#[derive(Debug, Clone, Copy, PartialEq, Eq, Structural)]
pub enum IoRoute {
    /// Use the socket the router handed over.
    Router(i32),
    /// The neighbor link points at a socket that is not there yet.
    NeighborNotReady,
    /// Connect through the neighbor link.
    Neighbor,
    /// Connect through the global registry's socket.
    Global,
    /// No way to the target is known.
    NoPath,
}

/// The route of one attempt. The router comes first; then a neighbor link,
/// which is not ready while the socket it names is missing; then the
/// global registry.
pub open spec fn spec_io_route(
    router_fd: Option<i32>,
    neighbor_link_exists: bool,
    link_target_missing: bool,
    global_exists: bool,
) -> IoRoute {
    match router_fd {
        Some(fd) => IoRoute::Router(fd),
        None => if neighbor_link_exists {
            if link_target_missing { IoRoute::NeighborNotReady } else { IoRoute::Neighbor }
        } else if global_exists {
            IoRoute::Global
        } else {
            IoRoute::NoPath
        },
    }
}

/// The client that reaches other cells through the IO router.
pub struct IoClient;

impl IoClient {
    /// The socket the IO router handed over, if its answer is usable: an answer
    /// that is not an error and carries at least one descriptor gives the
    /// first one.
    pub fn router_grant(answer_is_error: bool, fds: &Vec<i32>) -> (r: Option<i32>)
        ensures
            r == (if !answer_is_error && fds@.len() > 0 { Some(fds@[0]) } else { None::<i32> }),
    {
        if !answer_is_error && fds.len() > 0 {
            Some(fds[0])
        } else {
            None
        }
    }

    pub fn io_route(
        router_fd: Option<i32>,
        neighbor_link_exists: bool,
        link_target_missing: bool,
        global_exists: bool,
    ) -> (r: IoRoute)
        ensures
            r == spec_io_route(router_fd, neighbor_link_exists, link_target_missing, global_exists),
    {
        match router_fd {
            Some(fd) => IoRoute::Router(fd),
            None => if neighbor_link_exists {
                if link_target_missing { IoRoute::NeighborNotReady } else { IoRoute::Neighbor }
            } else if global_exists {
                IoRoute::Global
            } else {
                IoRoute::NoPath
            },
        }
    }

    /// The error of a failed connection through the neighbor link: a missing
    /// socket means the cell is not ready yet.
    pub fn neighbor_error(not_found: bool, detail: &str) -> (s: String)
        ensures
            s@ == (if not_found {
                "Neighbor socket not found (cell not ready)"@
            } else {
                "Failed to connect to neighbor: "@ + detail@
            }),
    {
        if not_found {
            String::from_str("Neighbor socket not found (cell not ready)")
        } else {
            let mut s = String::from_str("Failed to connect to neighbor: ");
            s.append(detail);
            s
        }
    }

    /// The error of a neighbor link whose socket is missing.
    pub fn neighbor_not_ready_message() -> (s: &'static str)
        ensures
            s@ == "Neighbor link exists but target socket not ready"@,
    {
        "Neighbor link exists but target socket not ready"
    }
}

/// Whether a socket broker accepted a connect request: it answers 0.
pub fn broker_accepted(ack: u8) -> (b: bool)
    ensures
        b == (ack == 0),
{
    ack == 0
}

/// The user-space router between cells.
pub struct NervousSystem;

impl NervousSystem {
    /// The neighbor a packet for another cell goes to: the neighbor of a
    /// known route, else the default gateway.
    pub fn next_hop(route: Option<String>) -> (n: String)
        ensures
            n@ == match route {
                Some(r) => r@,
                None => "default"@,
            },
    {
        match route {
            Some(r) => r,
            None => String::from_str("default"),
        }
    }
}

/// Bringing up a cell among its neighbors.
pub struct MeshBuilder;

impl MeshBuilder {
    /// Whether a wait that has made `attempts` attempts reports progress:
    /// every tenth attempt, not the first.
    pub fn progress_due(attempts: u64) -> (b: bool)
        ensures
            b == (attempts % 10 == 0 && attempts > 0),
    {
        attempts % 10 == 0 && attempts > 0
    }
}

/// The big-endian bytes of `x`.
pub open spec fn be_bytes64(x: u64) -> Seq<u8> {
    spec_u64_to_le_bytes(x).reverse()
}

/// The router file of a node: its id in sixteen lowercase hexadecimal
/// digits, then `.router`.
pub open spec fn router_file_name_spec(id: u64) -> Seq<char> {
    hex(be_bytes64(id)) + ".router"@
}

pub fn router_file_name(id: u64) -> (s: String)
    ensures
        s@ == router_file_name_spec(id),
{
    let le = u64_to_le_bytes(id);
    let mut be: Vec<u8> = Vec::new();
    let mut i: usize = 8;
    while i > 0
        invariant
            i <= 8,
            le@.len() == 8,
            le@ == spec_u64_to_le_bytes(id),
            be@ == le@.skip(i as int).reverse(),
        decreases i,
    {
        i = i - 1;
        be.push(le[i]);
        proof {
            assert(le@.skip(i as int).reverse() =~= le@.skip(i + 1).reverse().push(le@[i as int]));
        }
    }
    proof {
        assert(le@.skip(0) =~= le@);
    }
    let mut s = crate::identity::to_hex(be.as_slice());
    s.append(".router");
    s
}

/// A pipe name as stored in a router descriptor: the bytes without the
/// zero bytes that pad it at either end.
pub open spec fn trimmed_len_front(b: Seq<u8>) -> nat
    decreases b.len(),
{
    if b.len() > 0 && b[0] == 0 { 1 + trimmed_len_front(b.skip(1)) } else { 0 }
}

pub open spec fn trimmed_len_back(b: Seq<u8>) -> nat
    decreases b.len(),
{
    if b.len() > 0 && b.last() == 0 { 1 + trimmed_len_back(b.drop_last()) } else { 0 }
}

/// `b` without its leading and trailing zero bytes.
pub open spec fn trim_nuls_spec(b: Seq<u8>) -> Seq<u8> {
    let front = b.skip(trimmed_len_front(b) as int);
    front.take(front.len() - trimmed_len_back(front))
}

proof fn lemma_front(b: Seq<u8>, i: int)
    requires
        0 <= i <= b.len(),
        forall|k: int| 0 <= k < i ==> b[k] == 0,
        i == b.len() || b[i] != 0,
    ensures
        trimmed_len_front(b) == i,
    decreases i,
{
    if i > 0 {
        assert forall|k: int| 0 <= k < i - 1 implies b.skip(1)[k] == 0 by {
            assert(b.skip(1)[k] == b[k + 1]);
        }
        lemma_front(b.skip(1), i - 1);
    } else if b.len() > 0 {
        assert(b[0] != 0);
    }
}

proof fn lemma_back(b: Seq<u8>, j: int)
    requires
        0 <= j <= b.len(),
        forall|k: int| j <= k < b.len() ==> b[k] == 0,
        j == 0 || b[j - 1] != 0,
    ensures
        trimmed_len_back(b) == b.len() - j,
    decreases b.len() - j,
{
    if b.len() > j {
        assert forall|k: int| j <= k < b.drop_last().len() implies b.drop_last()[k] == 0 by {
            assert(b.drop_last()[k] == b[k]);
        }
        if j > 0 {
            assert(b.drop_last()[j - 1] == b[j - 1]);
        }
        lemma_back(b.drop_last(), j);
    } else if b.len() > 0 {
        assert(b.last() == b[j - 1]);
    }
}

pub fn trim_nuls(b: &[u8]) -> (r: Vec<u8>)
    ensures
        r@ == trim_nuls_spec(b@),
{
    let mut i: usize = 0;
    while i < b.len() && b[i] == 0
        invariant
            i <= b@.len(),
            forall|k: int| 0 <= k < i ==> b@[k] == 0,
        decreases b@.len() - i,
    {
        i = i + 1;
    }
    let mut j: usize = b.len();
    while j > i && b[j - 1] == 0
        invariant
            i <= j <= b@.len(),
            forall|k: int| j <= k < b@.len() ==> b@[k] == 0,
        decreases j,
    {
        j = j - 1;
    }
    proof {
        lemma_front(b@, i as int);
        let front = b@.skip(i as int);
        if j > i {
            assert(front[j - i - 1] == b@[j - 1]);
        }
        assert forall|k: int| j - i <= k < front.len() implies front[k] == 0 by {
            assert(front[k] == b@[k + i]);
        }
        lemma_back(front, j - i);
    }
    let mut out: Vec<u8> = Vec::new();
    let mut k: usize = i;
    while k < j
        invariant
            i <= k <= j <= b@.len(),
            out@ == b@.subrange(i as int, k as int),
        decreases j - k,
    {
        out.push(b[k]);
        k = k + 1;
        proof {
            assert(out@ =~= b@.subrange(i as int, k as int));
        }
    }
    proof {
        assert(b@.subrange(i as int, j as int) =~= b@.skip(i as int).take(j - i));
    }
    out
}

} // verus!
