//! Spawning cells: the configuration handed to a new cell, the root's
//! answer to a spawn request, and the command lines that place a cell in
//! its sandbox or container.

use vstd::prelude::*;
use vstd::string::StringSliceAdditionalSpecFns;
use crate::text::{u64_to_decimal, decimal};
use crate::identity::random_u64;

verus! {

/// The texts of a sequence of strings.
pub open spec fn texts(v: Seq<String>) -> Seq<Seq<char>> {
    v.map_values(|s: String| s@)
}

/// A peer a new cell is told about.
#[derive(Debug, Clone)]
pub struct PeerConfig {
    pub node_id: u64,
    pub address: String,
}

/// The configuration a new cell starts with.
#[derive(Debug, Clone)]
pub struct CellInitConfig {
    pub node_id: u64,
    pub cell_name: String,
    pub peers: Vec<PeerConfig>,
    pub socket_path: String,
    pub organism: String,
}

/// The node id and the peers (node id, address) of the three named
/// identities of a test cluster; none for any other identity.
pub open spec fn named_identity(identity: Seq<char>) -> Option<(u64, Seq<(u64, Seq<char>)>)> {
    if identity == "Alpha"@ {
        Some((1, seq![(2u64, "Beta"@), (3u64, "Gamma"@)]))
    } else if identity == "Beta"@ {
        Some((2, seq![(1u64, "Alpha"@), (3u64, "Gamma"@)]))
    } else if identity == "Gamma"@ {
        Some((3, seq![(1u64, "Alpha"@), (2u64, "Beta"@)]))
    } else {
        None
    }
}

pub open spec fn peer_views(peers: Seq<PeerConfig>) -> Seq<(u64, Seq<char>)> {
    peers.map_values(|p: PeerConfig| (p.node_id, p.address@))
}

/// Where a cell's socket lives inside its sandbox.
pub open spec fn sandbox_socket_path(cell_name: Seq<char>) -> Seq<char> {
    "/tmp/cell/"@ + cell_name + ".sock"@
}

pub open spec fn identity_entry(identity: Option<Seq<char>>) -> Option<(u64, Seq<(u64, Seq<char>)>)> {
    match identity {
        Some(i) => named_identity(i),
        None => None,
    }
}

/// Whether `c` is a configuration for `cell_name` under `identity`: its
/// name, its socket path, and for a named identity that identity's node id
/// and peers; a cell without a named identity has no peers.
pub open spec fn init_config_shape(c: CellInitConfig, cell_name: Seq<char>, identity: Option<Seq<char>>) -> bool {
    &&& c.cell_name@ == cell_name
    &&& c.socket_path@ == sandbox_socket_path(cell_name)
    &&& c.organism@ == "default"@
    &&& match identity_entry(identity) {
        Some((id, peers)) => c.node_id == id && peer_views(c.peers@) == peers,
        None => c.peers@.len() == 0,
    }
}

/// Whether `c` is the configuration for `cell_name` under `identity`,
/// with `fallback_id` as the node id of a cell without a named identity.
pub open spec fn init_config_is(
    c: CellInitConfig,
    cell_name: Seq<char>,
    identity: Option<Seq<char>>,
    fallback_id: u64,
) -> bool {
    &&& init_config_shape(c, cell_name, identity)
    &&& identity_entry(identity) is None ==> c.node_id == fallback_id
}

fn peer(node_id: u64, address: &str) -> (p: PeerConfig)
    ensures
        p.node_id == node_id,
        p.address@ == address@,
{
    PeerConfig { node_id, address: String::from_str(address) }
}

fn peers_of(a: (u64, &str), b: (u64, &str)) -> (v: Vec<PeerConfig>)
    ensures
        peer_views(v@) == seq![(a.0, a.1@), (b.0, b.1@)],
{
    let mut v: Vec<PeerConfig> = Vec::new();
    v.push(peer(a.0, a.1));
    v.push(peer(b.0, b.1));
    proof {
        assert(peer_views(v@) =~= seq![(a.0, a.1@), (b.0, b.1@)]);
    }
    v
}

/// The configuration of a new cell: a cell with one of the three named
/// identities gets that identity's node id and peers; any other cell gets
/// `fallback_id` and no peers.
pub fn init_config_with(cell_name: &str, identity: Option<&str>, fallback_id: u64) -> (c: CellInitConfig)
    ensures
        init_config_is(
            c,
            cell_name@,
            match identity {
                Some(i) => Some(i@),
                None => None,
            },
            fallback_id,
        ),
{
    let mut path = String::from_str("/tmp/cell/");
    path.append(cell_name);
    path.append(".sock");
    let name = String::from_str(cell_name);
    let mut node_id = fallback_id;
    let mut peers: Vec<PeerConfig> = Vec::new();
    match identity {
        Some(i) => {
            let alpha = "Alpha";
            let beta = "Beta";
            let gamma = "Gamma";
            if str_eq(i, alpha) {
                node_id = 1;
                peers = peers_of((2, beta), (3, gamma));
            } else if str_eq(i, beta) {
                node_id = 2;
                peers = peers_of((1, alpha), (3, gamma));
            } else if str_eq(i, gamma) {
                node_id = 3;
                peers = peers_of((1, alpha), (2, beta));
            }
        },
        None => {},
    }
    let c = CellInitConfig {
        node_id,
        cell_name: name,
        peers,
        socket_path: path,
        organism: String::from_str("default"),
    };
    proof {
        assert(peer_views(Seq::<PeerConfig>::empty()) =~= Seq::<(u64, Seq<char>)>::empty());
    }
    c
}

/// The configuration of a new cell; a cell without a named identity gets
/// a random node id.
pub fn init_config(cell_name: &str, identity: Option<&str>) -> (c: CellInitConfig)
    ensures
        init_config_shape(
            c,
            cell_name@,
            match identity {
                Some(i) => Some(i@),
                None => None,
            },
        ),
{
    let id = random_u64();
    init_config_with(cell_name, identity, id)
}

/// Whether two strings have the same text.
pub fn str_eq(a: &str, b: &str) -> (r: bool)
    ensures
        r == (a@ == b@),
{
    let x = a.as_bytes();
    let y = b.as_bytes();
    let r = crate::wire::bytes_equal(x, y);
    proof {
        if r {
            vstd::utf8::encode_utf8_decode_utf8(a@);
            vstd::utf8::encode_utf8_decode_utf8(b@);
        }
    }
    r
}

/// The answer of the root to a spawn request.
#[derive(Debug, Clone)]
pub enum MitosisResponse {
    Spawned { socket_path: String },
    Denied { reason: String },
}

/// The stages of serving a spawn request.
#[derive(Debug, Clone, Copy, PartialEq, Eq, Structural)]
pub enum SpawnStage {
    /// Look for the cell's source.
    FindDna,
    /// Build the cell.
    Build,
    /// Start the built cell in its sandbox.
    Launch,
}

/// What the root does next while serving a spawn request.
#[derive(Debug, Clone)]
pub enum SpawnOutcome {
    Continue(SpawnStage),
    Reply(MitosisResponse),
}

/// Whether `o` is the root's next step after `stage` for `cell_name`,
/// which succeeded when `ok`, else failed with `detail`.
pub open spec fn spawn_step_is(
    o: SpawnOutcome,
    stage: SpawnStage,
    cell_name: Seq<char>,
    ok: bool,
    detail: Seq<char>,
) -> bool {
    match stage {
        SpawnStage::FindDna => if ok {
            o == SpawnOutcome::Continue(SpawnStage::Build)
        } else {
            o matches SpawnOutcome::Reply(MitosisResponse::Denied { reason }) && reason@
                == "DNA not found for "@ + cell_name
        },
        SpawnStage::Build => if ok {
            o == SpawnOutcome::Continue(SpawnStage::Launch)
        } else {
            o matches SpawnOutcome::Reply(MitosisResponse::Denied { reason }) && reason@
                == "Build Failed: "@ + detail
        },
        SpawnStage::Launch => if ok {
            o matches SpawnOutcome::Reply(MitosisResponse::Spawned { socket_path }) && socket_path@
                == cell_name
        } else {
            o matches SpawnOutcome::Reply(MitosisResponse::Denied { reason }) && reason@
                == "Capsid Error: "@ + detail
        },
    }
}

/// The root that spawns cells: where sockets, sources and the umbilical
/// socket live under the home directory.
pub struct MyceliumRoot {
    socket_dir: String,
    dna_path: String,
    umbilical_path: String,
}

impl MyceliumRoot {
    /// The root's directories under `home`: sockets in `.cell/run`, sources
    /// in `.cell/dna`, and the umbilical socket `mitosis.sock` among the
    /// sockets.
    pub fn new(home: &str) -> (r: Self)
        ensures
            r.socket_dir()@ == home@ + "/.cell/run"@,
            r.dna_path()@ == home@ + "/.cell/dna"@,
            r.umbilical_path()@ == home@ + "/.cell/run"@ + "/mitosis.sock"@,
    {
        let mut run = String::from_str(home);
        run.append("/.cell/run");
        let mut dna = String::from_str(home);
        dna.append("/.cell/dna");
        let mut umb = String::from_str(home);
        umb.append("/.cell/run");
        umb.append("/mitosis.sock");
        MyceliumRoot { socket_dir: run, dna_path: dna, umbilical_path: umb }
    }

    pub closed spec fn socket_dir(&self) -> String {
        self.socket_dir
    }

    pub closed spec fn dna_path(&self) -> String {
        self.dna_path
    }

    pub closed spec fn umbilical_path(&self) -> String {
        self.umbilical_path
    }

    pub fn socket_dir_str(&self) -> (s: &str)
        ensures
            s@ == self.socket_dir()@,
    {
        self.socket_dir.as_str()
    }

    pub fn dna_path_str(&self) -> (s: &str)
        ensures
            s@ == self.dna_path()@,
    {
        self.dna_path.as_str()
    }

    pub fn umbilical_path_str(&self) -> (s: &str)
        ensures
            s@ == self.umbilical_path()@,
    {
        self.umbilical_path.as_str()
    }

    /// The root's next step after `stage`.
    pub fn spawn_step(stage: SpawnStage, cell_name: &str, ok: bool, detail: &str) -> (o: SpawnOutcome)
        ensures
            spawn_step_is(o, stage, cell_name@, ok, detail@),
    {
        match stage {
            SpawnStage::FindDna => if ok {
                SpawnOutcome::Continue(SpawnStage::Build)
            } else {
                let mut r = String::from_str("DNA not found for ");
                r.append(cell_name);
                SpawnOutcome::Reply(MitosisResponse::Denied { reason: r })
            },
            SpawnStage::Build => if ok {
                SpawnOutcome::Continue(SpawnStage::Launch)
            } else {
                let mut r = String::from_str("Build Failed: ");
                r.append(detail);
                SpawnOutcome::Reply(MitosisResponse::Denied { reason: r })
            },
            SpawnStage::Launch => if ok {
                SpawnOutcome::Reply(MitosisResponse::Spawned { socket_path: String::from_str(cell_name) })
            } else {
                let mut r = String::from_str("Capsid Error: ");
                r.append(detail);
                SpawnOutcome::Reply(MitosisResponse::Denied { reason: r })
            },
        }
    }
}

/// The client side of the spawn protocol.
pub struct System;

impl System {
    /// What a caller of the hypervisor makes of its answer: the socket path,
    /// or the error text. No answer at all is an error too.
    pub fn spawn_result(resp: Option<MitosisResponse>) -> (r: Result<String, String>)
        ensures
            match resp {
                None => r matches Err(e) && e@ == "Empty response from Hypervisor"@,
                Some(MitosisResponse::Spawned { socket_path }) => r matches Ok(p) && p@ == socket_path@,
                Some(MitosisResponse::Denied { reason }) => r matches Err(e) && e@ == "Spawn denied: "@
                    + reason@,
            },
    {
        match resp {
            None => Err(String::from_str("Empty response from Hypervisor")),
            Some(MitosisResponse::Spawned { socket_path }) => Ok(socket_path),
            Some(MitosisResponse::Denied { reason }) => {
                let mut e = String::from_str("Spawn denied: ");
                e.append(reason.as_str());
                Err(e)
            },
        }
    }
}

/// The bytes a spawn argument may not hold: `$ ` ; | & < >` and the
/// backquote.
pub open spec fn forbidden_byte(b: u8) -> bool {
    b == 0x24 || b == 0x60 || b == 0x3b || b == 0x7c || b == 0x26 || b == 0x3c || b == 0x3e
}

/// An argument is safe when none of its bytes is forbidden.
pub open spec fn arg_safe(arg: Seq<char>) -> bool {
    forall|i: int|
        0 <= i < vstd::utf8::encode_utf8(arg).len() ==> !forbidden_byte(
            #[trigger] vstd::utf8::encode_utf8(arg)[i],
        )
}

pub fn is_safe_arg(arg: &str) -> (b: bool)
    ensures
        b == arg_safe(arg@),
{
    let bytes = arg.as_bytes();
    let mut i: usize = 0;
    while i < bytes.len()
        invariant
            i <= bytes@.len(),
            bytes@ == vstd::utf8::encode_utf8(arg@),
            forall|j: int| 0 <= j < i ==> !forbidden_byte(#[trigger] bytes@[j]),
        decreases bytes@.len() - i,
    {
        let c = bytes[i];
        if c == 0x24 || c == 0x60 || c == 0x3b || c == 0x7c || c == 0x26 || c == 0x3c || c == 0x3e {
            return false;
        }
        i = i + 1;
    }
    true
}

/// Why a sandbox refuses to start a cell.
#[derive(Debug, Clone, Copy, PartialEq, Eq, Structural)]
pub enum CapsidError {
    NotAFile,
    UnsafeArgument,
}

impl CapsidError {
    pub fn message(&self) -> (s: &'static str)
        ensures
            s@ == match self {
                CapsidError::NotAFile => "Target is not a file"@,
                CapsidError::UnsafeArgument => "Invalid argument characters in spawn request"@,
            },
    {
        match self {
            CapsidError::NotAFile => "Target is not a file",
            CapsidError::UnsafeArgument => "Invalid argument characters in spawn request",
        }
    }
}

/// The sandbox a cell runs in.
pub struct Capsid;

impl Capsid {
    /// The checks before a sandbox starts: the binary must be a file (checked
    /// when the home directory is known), and no argument may hold a shell
    /// metacharacter.
    pub fn check(home_known: bool, binary_is_file: bool, args: &Vec<String>) -> (r: Result<(), CapsidError>)
        ensures
            r == (if home_known && !binary_is_file {
                Err(CapsidError::NotAFile)
            } else if exists|k: int| 0 <= k < args@.len() && !arg_safe(#[trigger] args@[k]@) {
                Err(CapsidError::UnsafeArgument)
            } else {
                Ok(())
            }),
    {
        if home_known && !binary_is_file {
            return Err(CapsidError::NotAFile);
        }
        let mut i: usize = 0;
        while i < args.len()
            invariant
                i <= args@.len(),
                !(home_known && !binary_is_file),
                forall|j: int| 0 <= j < i ==> arg_safe(#[trigger] args@[j]@),
            decreases args@.len() - i,
        {
            if !is_safe_arg(args[i].as_str()) {
                assert(!arg_safe(args@[i as int]@));
                return Err(CapsidError::UnsafeArgument);
            }
            i = i + 1;
        }
        Ok(())
    }
}

fn push_str(v: &mut Vec<String>, s: &str)
    ensures
        texts(final(v)@) == texts(old(v)@).push(s@),
{
    v.push(String::from_str(s));
    proof {
        assert(texts(v@) =~= texts(old(v)@).push(s@));
    }
}

/// The bubblewrap command line that starts a cell: everything unshared but
/// the network (kept for debugging and downloads), the host root read-only, a scratch `/tmp`, the socket
/// directory at `/tmp/cell`, the umbilical socket at `/tmp/mitosis.sock`,
/// the binary read-only at `/tmp/dna`, which then runs with `args`.
pub open spec fn bwrap_args(
    socket_dir: Seq<char>,
    umbilical: Seq<char>,
    binary: Seq<char>,
    args: Seq<Seq<char>>,
) -> Seq<Seq<char>> {
    seq![
        "--unshare-all"@, "--share-net"@, "--die-with-parent"@,
        "--ro-bind"@, "/"@, "/"@, "--dev"@, "/dev"@, "--proc"@, "/proc"@,
        "--tmpfs"@, "/tmp"@,
        "--bind"@, socket_dir, "/tmp/cell"@,
        "--bind"@, umbilical, "/tmp/mitosis.sock"@,
        "--ro-bind"@, binary, "/tmp/dna"@,
        "/tmp/dna"@,
    ] + args
}

impl Capsid {
    pub fn bwrap_command_args(socket_dir: &str, umbilical: &str, binary: &str, args: &Vec<String>) -> (r: Vec<String>)
        ensures
            texts(r@) == bwrap_args(socket_dir@, umbilical@, binary@, texts(args@)),
    {
        let mut v: Vec<String> = Vec::new();
        push_str(&mut v, "--unshare-all");
        push_str(&mut v, "--share-net");
        push_str(&mut v, "--die-with-parent");
        push_str(&mut v, "--ro-bind");
        push_str(&mut v, "/");
        push_str(&mut v, "/");
        push_str(&mut v, "--dev");
        push_str(&mut v, "/dev");
        push_str(&mut v, "--proc");
        push_str(&mut v, "/proc");
        push_str(&mut v, "--tmpfs");
        push_str(&mut v, "/tmp");
        push_str(&mut v, "--bind");
        push_str(&mut v, socket_dir);
        push_str(&mut v, "/tmp/cell");
        push_str(&mut v, "--bind");
        push_str(&mut v, umbilical);
        push_str(&mut v, "/tmp/mitosis.sock");
        push_str(&mut v, "--ro-bind");
        push_str(&mut v, binary);
        push_str(&mut v, "/tmp/dna");
        push_str(&mut v, "/tmp/dna");
        let ghost head = texts(v@);
        let mut i: usize = 0;
        while i < args.len()
            invariant
                i <= args@.len(),
                texts(v@) == head + texts(args@).take(i as int),
            decreases args@.len() - i,
        {
            push_str(&mut v, args[i].as_str());
            i = i + 1;
            proof {
                assert(texts(args@).take(i as int) =~= texts(args@).take(i - 1).push(args@[i - 1]@));
            }
        }
        proof {
            assert(texts(args@).take(args@.len() as int) =~= texts(args@));
            assert(head =~= bwrap_args(socket_dir@, umbilical@, binary@, Seq::empty()));
            assert(bwrap_args(socket_dir@, umbilical@, binary@, texts(args@)) =~= head + texts(args@));
        }
        v
    }
}

/// How a cell is started: as a bare process, or in a rootless container.
#[derive(Debug, Clone, Copy, PartialEq, Eq, Structural)]
pub enum Runtime {
    Raw,
    Podman,
}

/// The container command line: no network, a read-only file system, the
/// binaries read-only at `/dna`, the sockets at `/tmp/cell`, the umbilical
/// socket at `/mitosis.sock`, the caller's user and group, one CPU and
/// 512 MiB, on `alpine:latest`, running `/dna/<binary>`.
pub open spec fn podman_args_spec(
    binary_name: Seq<char>,
    dna: Seq<char>,
    socket_dir: Seq<char>,
    umbilical: Seq<char>,
    uid: u64,
    gid: u64,
) -> Seq<Seq<char>> {
    seq![
        "run"@, "--rm"@, "--detach"@, "--network"@, "none"@, "--read-only"@,
        "-v"@, dna + ":/dna:ro"@,
        "-v"@, socket_dir + ":/tmp/cell"@,
        "-v"@, umbilical + ":/mitosis.sock"@,
        "--user"@, decimal(uid as nat) + ":"@ + decimal(gid as nat),
        "--cpus"@, "1.0"@, "--memory"@, "512m"@,
        "alpine:latest"@,
        "/dna/"@ + binary_name,
    ]
}

fn joined(a: &str, b: &str) -> (s: String)
    ensures
        s@ == a@ + b@,
{
    let mut s = String::from_str(a);
    s.append(b);
    s
}

pub fn podman_args(
    binary_name: &str,
    dna: &str,
    socket_dir: &str,
    umbilical: &str,
    uid: u64,
    gid: u64,
) -> (r: Vec<String>)
    ensures
        texts(r@) == podman_args_spec(binary_name@, dna@, socket_dir@, umbilical@, uid, gid),
{
    let mut v: Vec<String> = Vec::new();
    push_str(&mut v, "run");
    push_str(&mut v, "--rm");
    push_str(&mut v, "--detach");
    push_str(&mut v, "--network");
    push_str(&mut v, "none");
    push_str(&mut v, "--read-only");
    push_str(&mut v, "-v");
    let a = joined(dna, ":/dna:ro");
    push_str(&mut v, a.as_str());
    push_str(&mut v, "-v");
    let b = joined(socket_dir, ":/tmp/cell");
    push_str(&mut v, b.as_str());
    push_str(&mut v, "-v");
    let c = joined(umbilical, ":/mitosis.sock");
    push_str(&mut v, c.as_str());
    push_str(&mut v, "--user");
    let mut user = u64_to_decimal(uid);
    user.append(":");
    let g = u64_to_decimal(gid);
    user.append(g.as_str());
    push_str(&mut v, user.as_str());
    push_str(&mut v, "--cpus");
    push_str(&mut v, "1.0");
    push_str(&mut v, "--memory");
    push_str(&mut v, "512m");
    push_str(&mut v, "alpine:latest");
    let d = joined("/dna/", binary_name);
    push_str(&mut v, d.as_str());
    proof {
        assert(texts(v@) =~= podman_args_spec(binary_name@, dna@, socket_dir@, umbilical@, uid, gid));
    }
    v
}

/// How a build of a cell ended.
#[derive(Debug, Clone, Copy, PartialEq, Eq, Structural)]
pub enum BuildVerdict {
    Built,
    CompileFailed,
    BinaryMissing,
}

/// The builder that turns a cell's source into its binary.
pub struct Ribosome;

impl Ribosome {
    /// The build command's arguments: an offline release build when the
    /// source vendors its dependencies, else an online one.
    pub fn cargo_build_args(has_vendor: bool) -> (r: Vec<String>)
        ensures
            texts(r@) == (if has_vendor {
                seq!["build"@, "--release"@, "--offline"@]
            } else {
                seq!["build"@, "--release"@]
            }),
    {
        let mut v: Vec<String> = Vec::new();
        push_str(&mut v, "build");
        push_str(&mut v, "--release");
        if has_vendor {
            push_str(&mut v, "--offline");
        }
        proof {
            assert(texts(v@) =~= (if has_vendor {
                seq!["build"@, "--release"@, "--offline"@]
            } else {
                seq!["build"@, "--release"@]
            }));
        }
        v
    }

    /// A build that exited with success and left the binary is a build.
    pub fn build_verdict(status_ok: bool, binary_exists: bool) -> (v: BuildVerdict)
        ensures
            v == (if !status_ok {
                BuildVerdict::CompileFailed
            } else if !binary_exists {
                BuildVerdict::BinaryMissing
            } else {
                BuildVerdict::Built
            }),
    {
        if !status_ok {
            BuildVerdict::CompileFailed
        } else if !binary_exists {
            BuildVerdict::BinaryMissing
        } else {
            BuildVerdict::Built
        }
    }

    /// The error of a build that did not compile.
    pub fn compile_failed_message(cell_name: &str) -> (s: String)
        ensures
            s@ == "Ribosome failed to compile "@ + cell_name@,
    {
        joined("Ribosome failed to compile ", cell_name)
    }
}

} // verus!
