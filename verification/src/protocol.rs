//! The data a cell publishes about itself: its genome (methods and types),
//! its registry entries, its manifest, and the request to spawn a cell.

use vstd::prelude::*;

verus! {

/// The schema a cell answers a genome request with.
#[derive(Debug)]
pub struct CellGenome {
    pub name: String,
    pub fingerprint: u64,
    pub methods: Vec<MethodSchema>,
    pub types: Vec<TypeSchema>,
}

/// One method of a cell: its name, named inputs and output.
#[derive(Debug)]
pub struct MethodSchema {
    pub name: String,
    pub inputs: Vec<(String, TypeRef)>,
    pub output: TypeRef,
    pub is_stream: bool,
}

/// A named type of a cell.
#[derive(Debug)]
pub struct TypeSchema {
    pub name: String,
    pub kind: TypeKind,
}

/// The shape of a named type.
#[derive(Debug)]
pub enum TypeKind {
    Struct { fields: Vec<(String, TypeRef)> },
    Enum { variants: Vec<(String, Vec<TypeRef>)> },
}

/// A reference to a type in a schema.
#[derive(Debug)]
pub enum TypeRef {
    Named(String),
    Primitive(Primitive),
    Vec(Box<TypeRef>),
    Option(Box<TypeRef>),
    Unknown,
}

/// The primitive types of a schema.
#[derive(Debug, Clone, Copy, PartialEq, Eq, Structural)]
pub enum Primitive {
    String,
    U8,
    U16,
    U32,
    U64,
    I8,
    I16,
    I32,
    I64,
    F32,
    F64,
    Bool,
}

/// The request to spawn a cell.
#[derive(Debug, Clone)]
pub enum MitosisRequest {
    Spawn { cell_name: String },
}

/// The instances of a cell known to the registry.
#[derive(Debug, Clone)]
pub struct InstanceRegistry {
    pub cell_name: String,
    pub version: String,
    pub instances: Vec<InstanceInfo>,
    pub updated_at: String,
}

/// One running instance of a cell.
#[derive(Debug, Clone)]
pub struct InstanceInfo {
    pub node_id: String,
    pub endpoint: String,
    pub region: Option<String>,
    pub last_heartbeat: String,
    pub signature: String,
}

/// The manifest of a cell.
#[derive(Debug, Clone)]
pub struct CellManifest {
    pub name: String,
    pub fingerprint: u64,
}

/// Where a client finds a cell, and how it may use it.
#[derive(Debug, Clone)]
pub struct CellSpec {
    pub git: String,
    pub tag: Option<String>,
    pub policy: Option<CellPolicy>,
}

/// How a client may use a cell.
#[derive(Debug, Clone, Copy, PartialEq, Eq, Structural)]
pub struct CellPolicy {
    pub max_latency_ms: u64,
    pub auto_spawn: bool,
}

impl Default for CellPolicy {
    /// No latency bound and no spawning.
    fn default() -> (p: Self)
        ensures
            p.max_latency_ms == 0,
            !p.auto_spawn,
    {
        CellPolicy { max_latency_ms: 0, auto_spawn: false }
    }
}

} // verus!
