//! The messages of the OSM data format, as plain values.

use vstd::prelude::*;

verus! {

/// Metadata attached to a node, way or relation.
#[derive(Clone, Copy, Debug, PartialEq, Eq)]
pub struct Info {
    pub version: Option<i32>,
    pub timestamp: Option<i64>,
    pub changeset: Option<i64>,
    pub uid: Option<i32>,
    pub user_sid: Option<u32>,
    pub visible: Option<bool>,
}

impl Info {
    pub fn new() -> (r: Info)
        ensures
            r.version is None && r.timestamp is None && r.changeset is None,
            r.uid is None && r.user_sid is None && r.visible is None,
    {
        Info {
            version: None,
            timestamp: None,
            changeset: None,
            uid: None,
            user_sid: None,
            visible: None,
        }
    }
}

/// A node stored as a message of its own.
#[derive(Clone, Debug, PartialEq)]
pub struct Node {
    pub id: i64,
    pub keys: Vec<u32>,
    pub vals: Vec<u32>,
    pub info: Info,
    pub lat: i64,
    pub lon: i64,
}

/// Per-node metadata of a dense run, as parallel arrays.
#[derive(Clone, Debug, PartialEq)]
pub struct DenseInfo {
    pub version: Vec<i32>,
    /// Delta coded.
    pub timestamp: Vec<i64>,
    /// Delta coded.
    pub changeset: Vec<i64>,
    /// Delta coded.
    pub uid: Vec<i32>,
    /// Delta coded.
    pub user_sid: Vec<i32>,
    pub visible: Vec<bool>,
}

/// Nodes packed as parallel, delta coded arrays.
#[derive(Clone, Debug, PartialEq)]
pub struct DenseNodes {
    /// Delta coded.
    pub id: Vec<i64>,
    pub denseinfo: DenseInfo,
    /// Delta coded.
    pub lat: Vec<i64>,
    /// Delta coded.
    pub lon: Vec<i64>,
    /// `(key, value)*` string indices of each node, each list ended by a `0`.
    pub keys_vals: Vec<i32>,
}

#[derive(Clone, Debug, PartialEq)]
pub struct Way {
    pub id: i64,
    pub keys: Vec<u32>,
    pub vals: Vec<u32>,
    pub info: Info,
    /// Delta coded node ids.
    pub refs: Vec<i64>,
}

#[derive(Clone, Debug, PartialEq)]
pub struct Relation {
    pub id: i64,
    pub keys: Vec<u32>,
    pub vals: Vec<u32>,
    pub info: Info,
    pub roles_sid: Vec<i32>,
    /// Delta coded member ids.
    pub memids: Vec<i64>,
    /// Member kinds: `0` node, `1` way, `2` relation; other values are unknown.
    pub types: Vec<i32>,
}

#[derive(Clone, Copy, Debug, PartialEq, Eq)]
pub struct ChangeSet {
    pub id: i64,
}

#[derive(Clone, Debug, PartialEq)]
pub struct PrimitiveGroup {
    pub nodes: Vec<Node>,
    pub dense: Option<DenseNodes>,
    pub ways: Vec<Way>,
    pub relations: Vec<Relation>,
    pub changesets: Vec<ChangeSet>,
}

/// A decoded data block: a string table, coordinate scaling and its groups.
#[derive(Clone, Debug, PartialEq)]
pub struct PrimitiveBlock {
    pub stringtable: Vec<Vec<u8>>,
    pub primitivegroup: Vec<PrimitiveGroup>,
    /// Nanodegrees per stored coordinate unit.
    pub granularity: i32,
    pub lat_offset: i64,
    pub lon_offset: i64,
    /// Milliseconds per stored timestamp unit.
    pub date_granularity: i32,
}

/// The header block that opens every file.
#[derive(Clone, Debug, PartialEq)]
pub struct HeaderBlock {
    pub required_features: Vec<String>,
    pub optional_features: Vec<String>,
    pub writingprogram: Option<String>,
    pub source: Option<String>,
    pub osmosis_replication_timestamp: Option<i64>,
    pub osmosis_replication_sequence_number: Option<i64>,
    pub osmosis_replication_base_url: Option<String>,
}

impl PrimitiveGroup {
    pub fn new() -> (r: PrimitiveGroup)
        ensures
            r.nodes@.len() == 0 && r.dense is None && r.ways@.len() == 0,
            r.relations@.len() == 0 && r.changesets@.len() == 0,
    {
        PrimitiveGroup {
            nodes: Vec::new(),
            dense: None,
            ways: Vec::new(),
            relations: Vec::new(),
            changesets: Vec::new(),
        }
    }
}

impl PrimitiveBlock {
    /// An empty block with the default scaling.
    pub fn new() -> (r: PrimitiveBlock)
        ensures
            r.stringtable@.len() == 0,
            r.primitivegroup@.len() == 0,
            r.granularity == 100 && r.lat_offset == 0 && r.lon_offset == 0,
            r.date_granularity == 1000,
    {
        PrimitiveBlock {
            stringtable: Vec::new(),
            primitivegroup: Vec::new(),
            granularity: 100,
            lat_offset: 0,
            lon_offset: 0,
            date_granularity: 1000,
        }
    }
}

impl HeaderBlock {
    pub fn new() -> (r: HeaderBlock)
        ensures
            r.required_features@.len() == 0,
            r.optional_features@.len() == 0,
            r.writingprogram is None && r.source is None,
            r.osmosis_replication_timestamp is None,
            r.osmosis_replication_sequence_number is None,
            r.osmosis_replication_base_url is None,
    {
        HeaderBlock {
            required_features: Vec::new(),
            optional_features: Vec::new(),
            writingprogram: None,
            source: None,
            osmosis_replication_timestamp: None,
            osmosis_replication_sequence_number: None,
            osmosis_replication_base_url: None,
        }
    }
}

/// The abstract value of a [`Node`].
pub struct NodeV {
    pub id: i64,
    pub keys: Seq<u32>,
    pub vals: Seq<u32>,
    pub info: Info,
    pub lat: i64,
    pub lon: i64,
}

/// The abstract value of a [`DenseInfo`].
pub struct DenseInfoV {
    pub version: Seq<i32>,
    pub timestamp: Seq<i64>,
    pub changeset: Seq<i64>,
    pub uid: Seq<i32>,
    pub user_sid: Seq<i32>,
    pub visible: Seq<bool>,
}

/// The abstract value of a [`DenseNodes`].
pub struct DenseNodesV {
    pub id: Seq<i64>,
    pub denseinfo: DenseInfoV,
    pub lat: Seq<i64>,
    pub lon: Seq<i64>,
    pub keys_vals: Seq<i32>,
}

/// The abstract value of a [`Way`].
pub struct WayV {
    pub id: i64,
    pub keys: Seq<u32>,
    pub vals: Seq<u32>,
    pub info: Info,
    pub refs: Seq<i64>,
}

/// The abstract value of a [`Relation`].
pub struct RelationV {
    pub id: i64,
    pub keys: Seq<u32>,
    pub vals: Seq<u32>,
    pub info: Info,
    pub roles_sid: Seq<i32>,
    pub memids: Seq<i64>,
    pub types: Seq<i32>,
}

/// The abstract value of a [`PrimitiveGroup`].
pub struct PrimitiveGroupV {
    pub nodes: Seq<NodeV>,
    pub dense: Option<DenseNodesV>,
    pub ways: Seq<WayV>,
    pub relations: Seq<RelationV>,
    pub changesets: Seq<ChangeSet>,
}

/// The abstract value of a [`PrimitiveBlock`].
pub struct PrimitiveBlockV {
    pub stringtable: Seq<Seq<u8>>,
    pub primitivegroup: Seq<PrimitiveGroupV>,
    pub granularity: i32,
    pub lat_offset: i64,
    pub lon_offset: i64,
    pub date_granularity: i32,
}

/// The abstract value of a [`HeaderBlock`].
pub struct HeaderBlockV {
    pub required_features: Seq<Seq<char>>,
    pub optional_features: Seq<Seq<char>>,
    pub writingprogram: Option<Seq<char>>,
    pub source: Option<Seq<char>>,
    pub osmosis_replication_timestamp: Option<i64>,
    pub osmosis_replication_sequence_number: Option<i64>,
    pub osmosis_replication_base_url: Option<Seq<char>>,
}

pub open spec fn nodes_view(v: Seq<Node>) -> Seq<NodeV> {
    v.map_values(|n: Node| n@)
}

pub open spec fn ways_view(v: Seq<Way>) -> Seq<WayV> {
    v.map_values(|w: Way| w@)
}

pub open spec fn relations_view(v: Seq<Relation>) -> Seq<RelationV> {
    v.map_values(|r: Relation| r@)
}

pub open spec fn groups_view(v: Seq<PrimitiveGroup>) -> Seq<PrimitiveGroupV> {
    v.map_values(|g: PrimitiveGroup| g@)
}

pub open spec fn table_view(v: Seq<Vec<u8>>) -> Seq<Seq<u8>> {
    v.map_values(|s: Vec<u8>| s@)
}

pub open spec fn texts_view(v: Seq<String>) -> Seq<Seq<char>> {
    v.map_values(|s: String| s@)
}

pub open spec fn opt_text(s: Option<String>) -> Option<Seq<char>> {
    match s {
        Some(t) => Some(t@),
        None => None,
    }
}

impl View for Node {
    type V = NodeV;

    open spec fn view(&self) -> NodeV {
        NodeV {
            id: self.id,
            keys: self.keys@,
            vals: self.vals@,
            info: self.info,
            lat: self.lat,
            lon: self.lon,
        }
    }
}

impl View for DenseInfo {
    type V = DenseInfoV;

    open spec fn view(&self) -> DenseInfoV {
        DenseInfoV {
            version: self.version@,
            timestamp: self.timestamp@,
            changeset: self.changeset@,
            uid: self.uid@,
            user_sid: self.user_sid@,
            visible: self.visible@,
        }
    }
}

impl View for DenseNodes {
    type V = DenseNodesV;

    open spec fn view(&self) -> DenseNodesV {
        DenseNodesV {
            id: self.id@,
            denseinfo: self.denseinfo@,
            lat: self.lat@,
            lon: self.lon@,
            keys_vals: self.keys_vals@,
        }
    }
}

impl View for Way {
    type V = WayV;

    open spec fn view(&self) -> WayV {
        WayV { id: self.id, keys: self.keys@, vals: self.vals@, info: self.info, refs: self.refs@ }
    }
}

impl View for Relation {
    type V = RelationV;

    open spec fn view(&self) -> RelationV {
        RelationV {
            id: self.id,
            keys: self.keys@,
            vals: self.vals@,
            info: self.info,
            roles_sid: self.roles_sid@,
            memids: self.memids@,
            types: self.types@,
        }
    }
}

impl View for PrimitiveGroup {
    type V = PrimitiveGroupV;

    open spec fn view(&self) -> PrimitiveGroupV {
        PrimitiveGroupV {
            nodes: nodes_view(self.nodes@),
            dense: match self.dense {
                Some(d) => Some(d@),
                None => None,
            },
            ways: ways_view(self.ways@),
            relations: relations_view(self.relations@),
            changesets: self.changesets@,
        }
    }
}

impl View for PrimitiveBlock {
    type V = PrimitiveBlockV;

    open spec fn view(&self) -> PrimitiveBlockV {
        PrimitiveBlockV {
            stringtable: table_view(self.stringtable@),
            primitivegroup: groups_view(self.primitivegroup@),
            granularity: self.granularity,
            lat_offset: self.lat_offset,
            lon_offset: self.lon_offset,
            date_granularity: self.date_granularity,
        }
    }
}

impl View for HeaderBlock {
    type V = HeaderBlockV;

    open spec fn view(&self) -> HeaderBlockV {
        HeaderBlockV {
            required_features: texts_view(self.required_features@),
            optional_features: texts_view(self.optional_features@),
            writingprogram: opt_text(self.writingprogram),
            source: opt_text(self.source),
            osmosis_replication_timestamp: self.osmosis_replication_timestamp,
            osmosis_replication_sequence_number: self.osmosis_replication_sequence_number,
            osmosis_replication_base_url: opt_text(self.osmosis_replication_base_url),
        }
    }
}

} // verus!
