//! A cell's configuration from its environment: its node id, its peers,
//! and where it keeps its log.

use vstd::prelude::*;
use vstd::string::StringSliceAdditionalSpecFns;
use crate::mitosis::{CellInitConfig, texts};

verus! {

/// The pieces of `s` between occurrences of `sep`, in order; a string
/// without `sep` is one piece, and the empty string is one empty piece.
pub open spec fn split_spec(s: Seq<char>, sep: char) -> Seq<Seq<char>>
    decreases s.len(),
{
    if s.len() == 0 {
        seq![Seq::empty()]
    } else {
        let before = split_spec(s.drop_last(), sep);
        if s.last() == sep {
            before.push(Seq::empty())
        } else {
            before.update(before.len() - 1, before.last().push(s.last()))
        }
    }
}

/// The pieces of `s` between commas.
pub open spec fn split_commas_spec(s: Seq<char>) -> Seq<Seq<char>> {
    split_spec(s, ',')
}

/// The characters with the Unicode property White_Space.
pub open spec fn is_white_space(c: char) -> bool {
    ('\u{9}' <= c && c <= '\u{d}') || c == ' ' || c == '\u{85}' || c == '\u{a0}' || c == '\u{1680}'
        || ('\u{2000}' <= c && c <= '\u{200a}') || c == '\u{2028}' || c == '\u{2029}' || c
        == '\u{202f}' || c == '\u{205f}' || c == '\u{3000}'
}

pub open spec fn leading_white(s: Seq<char>) -> nat
    decreases s.len(),
{
    if s.len() > 0 && is_white_space(s[0]) { 1 + leading_white(s.drop_first()) } else { 0 }
}

pub open spec fn trailing_white(s: Seq<char>) -> nat
    decreases s.len(),
{
    if s.len() > 0 && is_white_space(s.last()) { 1 + trailing_white(s.drop_last()) } else { 0 }
}

/// `s` without its leading and trailing white space.
pub open spec fn trim_spec(s: Seq<char>) -> Seq<char> {
    let front = s.skip(leading_white(s) as int);
    front.take(front.len() - trailing_white(front))
}

pub open spec fn str_texts<'a>(v: Seq<&'a str>) -> Seq<Seq<char>> {
    v.map_values(|s: &'a str| s@)
}

/// `str::split` on a character, collected: the pieces between
/// occurrences of `sep`.
#[verifier::external_body]
fn split_on<'a>(s: &'a str, sep: char) -> (r: Vec<&'a str>)
    ensures
        str_texts(r@) == split_spec(s@, sep),
{
    s.split(sep).collect()
}

/// `str::trim`: the string without leading and trailing White_Space.
#[verifier::external_body]
fn trim_str<'a>(s: &'a str) -> (r: &'a str)
    ensures
        r@ == trim_spec(s@),
{
    s.trim()
}

/// The peers listed in `s`: its comma-separated pieces, trimmed, without
/// the empty ones.
pub open spec fn peers_of(pieces: Seq<Seq<char>>) -> Seq<Seq<char>>
    decreases pieces.len(),
{
    if pieces.len() == 0 {
        Seq::empty()
    } else {
        let rest = peers_of(pieces.drop_last());
        let t = trim_spec(pieces.last());
        if t.len() == 0 { rest } else { rest.push(t) }
    }
}

pub fn parse_peers(s: &str) -> (r: Vec<String>)
    ensures
        texts(r@) == peers_of(split_commas_spec(s@)),
{
    let pieces = split_on(s, ',');
    let mut out: Vec<String> = Vec::new();
    let mut i: usize = 0;
    while i < pieces.len()
        invariant
            i <= pieces@.len(),
            str_texts(pieces@) == split_commas_spec(s@),
            texts(out@) == peers_of(str_texts(pieces@).take(i as int)),
        decreases pieces@.len() - i,
    {
        let t = trim_str(pieces[i]);
        let tb = t.as_bytes();
        proof {
            assert(str_texts(pieces@).take(i + 1).drop_last() =~= str_texts(pieces@).take(i as int));
            assert(str_texts(pieces@).take(i + 1).last() == pieces@[i as int]@);
        }
        if tb.len() > 0 {
            proof {
                assert(t.spec_bytes().len() > 0);
                if t@.len() == 0 {
                    assert(vstd::utf8::encode_utf8(t@) =~= Seq::<u8>::empty());
                }
            }
            let owned = t.to_owned();
            let ghost prev = out@;
            let ghost owned_text = owned@;
            out.push(owned);
            proof {
                assert(texts(out@) =~= texts(prev).push(owned_text));
            }
        } else {
            proof {
                vstd::utf8::encode_utf8_decode_utf8(t@);
                assert(t.spec_bytes() =~= Seq::<u8>::empty());
                assert(vstd::utf8::decode_utf8(Seq::<u8>::empty()) =~= Seq::<char>::empty());
            }
        }
        i = i + 1;
    }
    proof {
        assert(str_texts(pieces@).take(pieces@.len() as int) =~= str_texts(pieces@));
    }
    out
}

/// The value of a run of decimal digits.
pub open spec fn digits_value(d: Seq<u8>) -> nat
    decreases d.len(),
{
    if d.len() == 0 { 0 } else { digits_value(d.drop_last()) * 10 + (d.last() - 48) as nat }
}

pub open spec fn all_digits(d: Seq<u8>) -> bool {
    forall|i: int| 0 <= i < d.len() ==> 48 <= #[trigger] d[i] <= 57
}

/// What `u64::from_str` makes of the bytes `b`: an optional `+`, then at
/// least one decimal digit, with a value that fits.
pub open spec fn parse_u64_spec(b: Seq<u8>) -> Option<u64> {
    let d = if b.len() > 0 && b[0] == 43 { b.drop_first() } else { b };
    if d.len() > 0 && all_digits(d) && digits_value(d) <= u64::MAX {
        Some(digits_value(d) as u64)
    } else {
        None
    }
}

proof fn lemma_digits_monotone(d: Seq<u8>, k: int)
    requires
        0 <= k <= d.len(),
        all_digits(d),
    ensures
        digits_value(d.take(k)) <= digits_value(d),
    decreases d.len() - k,
{
    if k < d.len() {
        lemma_digits_monotone(d, k + 1);
        assert(d.take(k + 1).drop_last() =~= d.take(k));
        assert(digits_value(d.take(k + 1)) == digits_value(d.take(k)) * 10 + (d[k] - 48) as nat);
    } else {
        assert(d.take(k) =~= d);
    }
}

/// Parses an unsigned decimal number as `u64::from_str` does.
pub fn parse_u64(s: &str) -> (r: Option<u64>)
    ensures
        r == parse_u64_spec(s.spec_bytes()),
{
    let b = s.as_bytes();
    let start: usize = if b.len() > 0 && b[0] == 43 { 1 } else { 0 };
    let ghost d = if b@.len() > 0 && b@[0] == 43 { b@.drop_first() } else { b@ };
    proof {
        assert(d =~= b@.skip(start as int));
    }
    if start >= b.len() {
        return None;
    }
    let mut v: u64 = 0;
    let mut i: usize = start;
    while i < b.len()
        invariant
            start <= i <= b@.len(),
            b@ == s.spec_bytes(),
            d == (if b@.len() > 0 && b@[0] == 43 { b@.drop_first() } else { b@ }),
            d == b@.skip(start as int),
            all_digits(d.take(i - start)),
            v == digits_value(d.take(i - start)),
        decreases b@.len() - i,
    {
        let c = b[i];
        proof {
            assert(d.take(i - start + 1).drop_last() =~= d.take(i - start));
            assert(d.take(i - start + 1).last() == c);
        }
        if c < 48 || c > 57 {
            proof {
                assert(!all_digits(d));
            }
            return None;
        }
        let digit = (c - 48) as u64;
        if v > (u64::MAX - digit) / 10 {
            proof {
                assert(digits_value(d.take(i - start + 1)) > u64::MAX) by (nonlinear_arith)
                    requires
                        v > (u64::MAX - digit) / 10,
                        digits_value(d.take(i - start + 1)) == v * 10 + digit,
                        digit <= 9,
                ;
                if all_digits(d) {
                    lemma_digits_monotone(d, i - start + 1);
                }
            }
            return None;
        }
        v = v * 10 + digit;
        i = i + 1;
        proof {
            assert(all_digits(d.take(i - start)));
        }
    }
    proof {
        assert(d.take(i - start) =~= d);
    }
    Some(v)
}

/// A cell's configuration.
#[derive(Debug, Clone)]
pub struct CellConfig {
    pub node_id: u64,
    pub peers: Vec<String>,
    pub raft_storage_path: Option<String>,
}

impl CellConfig {
    /// The configuration from the values of `CELL_NODE_ID` (1 when unset)
    /// and `CELL_PEERS` (none when unset), with the log at `storage_path`.
    /// A node id that does not parse is an error.
    pub fn from_values(node_id: Option<&str>, peers: Option<&str>, storage_path: String) -> (r: Result<CellConfig, String>)
        ensures
            ({
                let id_text = match node_id {
                    Some(t) => t.spec_bytes(),
                    None => seq![49u8],
                };
                match parse_u64_spec(id_text) {
                    None => r matches Err(e) && e@ == "CELL_NODE_ID must be a u64 integer"@,
                    Some(id) => r matches Ok(c) && c.node_id == id && texts(c.peers@) == peers_of(
                        split_commas_spec(
                            match peers {
                                Some(p) => p@,
                                None => Seq::empty(),
                            },
                        ),
                    ) && c.raft_storage_path == Some(storage_path),
                }
            }),
    {
        let id = match node_id {
            Some(t) => parse_u64(t),
            None => {
                proof {
                    let one = seq![49u8];
                    assert(one.len() == 1);
                    assert(one.last() == 49);
                    assert(one.drop_last() =~= Seq::<u8>::empty());
                    assert(digits_value(one.drop_last()) == 0);
                    assert(digits_value(one) == 1);
                    assert(all_digits(one));
                }
                Some(1u64)
            },
        };
        match id {
            None => Err(String::from_str("CELL_NODE_ID must be a u64 integer")),
            Some(node) => {
                let list = match peers {
                    Some(p) => parse_peers(p),
                    None => {
                        proof {
                            let pieces = split_commas_spec(Seq::<char>::empty());
                            assert(pieces == seq![Seq::<char>::empty()]);
                            assert(pieces.drop_last() =~= Seq::<Seq<char>>::empty());
                            assert(leading_white(Seq::<char>::empty()) == 0);
                            assert(trim_spec(Seq::<char>::empty()) =~= Seq::<char>::empty());
                            assert(pieces.last() =~= Seq::<char>::empty());
                            assert(peers_of(pieces.drop_last()) =~= Seq::<Seq<char>>::empty());
                            assert(peers_of(pieces) =~= Seq::<Seq<char>>::empty());
                            assert(texts(Seq::<String>::empty()) =~= Seq::<Seq<char>>::empty());
                        }
                        Vec::new()
                    },
                };
                Ok(CellConfig { node_id: node, peers: list, raft_storage_path: Some(storage_path) })
            },
        }
    }
}

/// The file of a cell's consensus log: `<cell>.wal`.
pub fn storage_file_name(cell_name: &str) -> (s: String)
    ensures
        s@ == cell_name@ + ".wal"@,
{
    let mut s = String::from_str(cell_name);
    s.append(".wal");
    s
}

/// How a cell's manifest names a neighbor: by its path alone, or with
/// further settings.
#[derive(Debug, Clone)]
pub enum NeighborConfig {
    Path(String),
    Detailed { path: String },
}

/// The layout a cell builds around itself from its manifest.
pub struct Organism;

impl Organism {
    /// The path of a neighbor's source, relative to the cell.
    pub fn neighbor_path(config: &NeighborConfig) -> (p: &str)
        ensures
            p@ == match config {
                NeighborConfig::Path(p) => p@,
                NeighborConfig::Detailed { path, .. } => path@,
            },
    {
        match config {
            NeighborConfig::Path(p) => p.as_str(),
            NeighborConfig::Detailed { path, .. } => path.as_str(),
        }
    }
}

/// The identity a cell runs under.
pub struct Identity;

impl Identity {
    /// A cell's identity at start: the node id from the environment when it
    /// parses, else `random_id`; the name of its directory, else "unknown";
    /// no peers; the organism from the environment, else "default".
    pub fn bootstrap(
        node_id: Option<&str>,
        dir_name: Option<String>,
        organism: Option<String>,
        random_id: u64,
    ) -> (c: CellInitConfig)
        ensures
            c.node_id == (match node_id {
                Some(t) => match parse_u64_spec(t.spec_bytes()) {
                    Some(v) => v,
                    None => random_id,
                },
                None => random_id,
            }),
            c.cell_name@ == (match dir_name {
                Some(n) => n@,
                None => "unknown"@,
            }),
            c.peers@.len() == 0,
            c.socket_path@ == Seq::<char>::empty(),
            c.organism@ == (match organism {
                Some(o) => o@,
                None => "default"@,
            }),
    {
        let id = match node_id {
            Some(t) => match parse_u64(t) {
                Some(v) => v,
                None => random_id,
            },
            None => random_id,
        };
        let name = match dir_name {
            Some(n) => n,
            None => String::from_str("unknown"),
        };
        let org = match organism {
            Some(o) => o,
            None => String::from_str("default"),
        };
        CellInitConfig { node_id: id, cell_name: name, peers: Vec::new(), socket_path: String::new(), organism: org }
    }
}

/// The environment of a test that runs as a cell.
pub struct CellTestContext {
    test_name: String,
}

impl CellTestContext {
    pub closed spec fn name(&self) -> Seq<char> {
        self.test_name@
    }

    pub fn new(test_name: &str) -> (c: Self)
        ensures
            c.name() == test_name@,
    {
        CellTestContext { test_name: String::from_str(test_name) }
    }

    pub fn test_name(&self) -> (s: &str)
        ensures
            s@ == self.name(),
    {
        self.test_name.as_str()
    }
}

} // verus!
