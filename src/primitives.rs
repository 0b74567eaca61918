//! Typed iteration over the primitives of a block, group by group.

use vstd::prelude::*;

use crate::delta::{
    delta_sum, delta_sum32, kv_cursor, lemma_kv_cursor_bounds, lemma_tag_end_bounds, scan_tags,
    tag_end,
};
use crate::osmformat::{ChangeSet, DenseInfo, Info, PrimitiveBlock, PrimitiveGroup, Relation, Way};
use core::marker::PhantomData;
use crate::tags::{Tags, TagsData};

verus! {

/// A set of primitive kinds, as bits: node 1, way 2, relation 4, change set 8.
#[derive(Clone, Copy, Debug, PartialEq, Eq)]
pub struct PrimitiveType {
    pub bits: u32,
}

impl PrimitiveType {
    pub fn node() -> (r: PrimitiveType)
        ensures
            r.bits == 1,
    {
        PrimitiveType { bits: 1 }
    }

    pub fn way() -> (r: PrimitiveType)
        ensures
            r.bits == 2,
    {
        PrimitiveType { bits: 2 }
    }

    pub fn relation() -> (r: PrimitiveType)
        ensures
            r.bits == 4,
    {
        PrimitiveType { bits: 4 }
    }

    pub fn change_set() -> (r: PrimitiveType)
        ensures
            r.bits == 8,
    {
        PrimitiveType { bits: 8 }
    }

    /// Nodes, ways and relations.
    pub fn default_types() -> (r: PrimitiveType)
        ensures
            r.bits == 7,
    {
        PrimitiveType { bits: 7 }
    }

    /// Every kind.
    pub fn all() -> (r: PrimitiveType)
        ensures
            r.bits == 15,
    {
        PrimitiveType { bits: 15 }
    }

    pub fn union(self, other: PrimitiveType) -> (r: PrimitiveType)
        ensures
            r.bits == self.bits | other.bits,
    {
        PrimitiveType { bits: self.bits | other.bits }
    }

    pub open spec fn spec_contains(self, other: PrimitiveType) -> bool {
        self.bits & other.bits == other.bits
    }

    /// Whether every kind of `other` is in `self`.
    pub fn contains(self, other: PrimitiveType) -> (r: bool)
        ensures
            r == self.spec_contains(other),
    {
        self.bits & other.bits == other.bits
    }
}

/// The kinds of entries of a group, in the order they are visited:
/// `0` nodes, `1` dense nodes, `2` ways, `3` relations, `4` change sets.
pub open spec fn category_bit(c: int) -> u32 {
    if c <= 1 {
        1
    } else if c == 2 {
        2
    } else if c == 3 {
        4
    } else {
        8
    }
}

pub open spec fn selects(f: PrimitiveType, c: int) -> bool {
    f.bits & category_bit(c) == category_bit(c)
}

pub open spec fn min3(a: int, b: int, c: int) -> int {
    if a <= b && a <= c {
        a
    } else if b <= c {
        b
    } else {
        c
    }
}

/// The number of dense nodes of a group: the shortest of its id, lat and lon arrays.
pub open spec fn dense_len(g: PrimitiveGroup) -> int {
    match g.dense {
        Some(d) => min3(d.id@.len() as int, d.lat@.len() as int, d.lon@.len() as int),
        None => 0,
    }
}

/// The number of entries of category `c` in a group.
pub open spec fn category_len(g: PrimitiveGroup, c: int) -> int {
    if c == 0 {
        g.nodes@.len() as int
    } else if c == 1 {
        dense_len(g)
    } else if c == 2 {
        g.ways@.len() as int
    } else if c == 3 {
        g.relations@.len() as int
    } else {
        g.changesets@.len() as int
    }
}

/// A coordinate in nanodegrees from its stored value (wrapping on overflow).
pub open spec fn scale(offset: i64, stored: i64, granularity: i32) -> i64 {
    offset.wrapping_add(stored.wrapping_mul(granularity as i64))
}

/// Where a node's tags and metadata are kept.
#[derive(Clone, Copy, Debug, PartialEq, Eq)]
pub enum NodeData {
    /// In the group's `nodes` entry at the node's index.
    Node,
    /// In the group's dense run: tags in `keys_vals[kv_start..kv_end]`.
    DenseNode { kv_start: usize, kv_end: usize },
}

/// A node of a block, with its coordinates in nanodegrees.
#[derive(Clone, Copy, Debug)]
pub struct NodeRef<'l> {
    pub id: i64,
    pub nano_lat: i64,
    pub nano_lon: i64,
    /// Position in the group's `nodes` or dense run.
    pub index: usize,
    pub group: usize,
    pub data: NodeData,
    pub block: &'l PrimitiveBlock,
}

/// An entry of type `T` of a block, by group and position.
#[derive(Debug)]
pub struct PrimitiveRef<'l, T> {
    pub group: usize,
    pub index: usize,
    pub block: &'l PrimitiveBlock,
    pub kind: PhantomData<T>,
}

pub type WayRef<'l> = PrimitiveRef<'l, Way>;

pub type RelationRef<'l> = PrimitiveRef<'l, Relation>;

pub type ChangeSetRef<'l> = PrimitiveRef<'l, ChangeSet>;

/// One primitive of a block.
#[derive(Debug)]
pub enum Primitive<'l> {
    Node(NodeRef<'l>),
    Way(WayRef<'l>),
    Relation(RelationRef<'l>),
    ChangeSet(ChangeSetRef<'l>),
}

impl<'l> NodeRef<'l> {
    /// The node's position lies inside its block.
    pub open spec fn wf(&self) -> bool {
        &&& self.group < self.block.primitivegroup@.len()
        &&& {
            let grp = self.block.primitivegroup@[self.group as int];
            match self.data {
                NodeData::Node => self.index < grp.nodes@.len(),
                NodeData::DenseNode { kv_start, kv_end } => {
                    &&& grp.dense is Some
                    &&& self.index < dense_len(grp)
                    &&& kv_start <= kv_end <= grp.dense->0.keys_vals@.len()
                },
            }
        }
    }
}

impl<'l> PrimitiveRef<'l, Way> {
    pub open spec fn wf(&self) -> bool {
        &&& self.group < self.block.primitivegroup@.len()
        &&& self.index < self.block.primitivegroup@[self.group as int].ways@.len()
    }
}

impl<'l> PrimitiveRef<'l, Relation> {
    pub open spec fn wf(&self) -> bool {
        &&& self.group < self.block.primitivegroup@.len()
        &&& self.index < self.block.primitivegroup@[self.group as int].relations@.len()
    }
}

impl<'l> PrimitiveRef<'l, ChangeSet> {
    pub open spec fn wf(&self) -> bool {
        &&& self.group < self.block.primitivegroup@.len()
        &&& self.index < self.block.primitivegroup@[self.group as int].changesets@.len()
    }
}

/// A primitive lies inside its block.
pub open spec fn primitive_wf(p: Primitive) -> bool {
    match p {
        Primitive::Node(n) => n.wf(),
        Primitive::Way(w) => w.wf(),
        Primitive::Relation(r) => r.wf(),
        Primitive::ChangeSet(c) => c.wf(),
    }
}

/// The `i`-th node of the `nodes` of group `g`.
pub open spec fn plain_node<'l>(b: &'l PrimitiveBlock, g: int, i: int) -> NodeRef<'l> {
    let n = b.primitivegroup@[g].nodes@[i];
    NodeRef {
        id: n.id,
        nano_lat: scale(b.lat_offset, n.lat, b.granularity),
        nano_lon: scale(b.lon_offset, n.lon, b.granularity),
        index: i as usize,
        group: g as usize,
        data: NodeData::Node,
        block: b,
    }
}

/// The `i`-th node of the dense run of group `g`: its id and stored
/// coordinates are the running sums of the first `i + 1` deltas.
pub open spec fn dense_node<'l>(b: &'l PrimitiveBlock, g: int, i: int) -> NodeRef<'l> {
    let d = b.primitivegroup@[g].dense->0;
    let start = kv_cursor(d.keys_vals@, i as nat);
    NodeRef {
        id: delta_sum(d.id@, (i + 1) as nat),
        nano_lat: scale(b.lat_offset, delta_sum(d.lat@, (i + 1) as nat), b.granularity),
        nano_lon: scale(b.lon_offset, delta_sum(d.lon@, (i + 1) as nat), b.granularity),
        index: i as usize,
        group: g as usize,
        data: NodeData::DenseNode {
            kv_start: start as usize,
            kv_end: tag_end(d.keys_vals@, start) as usize,
        },
        block: b,
    }
}

/// The `i`-th entry of some kind of group `g`.
pub open spec fn entry_ref<'l, T>(b: &'l PrimitiveBlock, g: int, i: int) -> PrimitiveRef<'l, T> {
    PrimitiveRef { group: g as usize, index: i as usize, block: b, kind: PhantomData }
}

/// The `i`-th entry of category `c` of group `g`.
pub open spec fn item<'l>(b: &'l PrimitiveBlock, g: int, c: int, i: int) -> Primitive<'l> {
    if c == 0 {
        Primitive::Node(plain_node(b, g, i))
    } else if c == 1 {
        Primitive::Node(dense_node(b, g, i))
    } else if c == 2 {
        Primitive::Way(entry_ref(b, g, i))
    } else if c == 3 {
        Primitive::Relation(entry_ref(b, g, i))
    } else {
        Primitive::ChangeSet(entry_ref(b, g, i))
    }
}

/// The entries of category `c` of group `g` that the filter selects.
pub open spec fn category_items<'l>(
    b: &'l PrimitiveBlock,
    g: int,
    c: int,
    f: PrimitiveType,
) -> Seq<Primitive<'l>> {
    if selects(f, c) {
        Seq::new(category_len(b.primitivegroup@[g], c) as nat, |i: int| item(b, g, c, i))
    } else {
        seq![]
    }
}

/// The selected entries of group `g`, from category `c` on.
pub open spec fn group_items<'l>(
    b: &'l PrimitiveBlock,
    g: int,
    c: int,
    f: PrimitiveType,
) -> Seq<Primitive<'l>>
    decreases 5 - c,
{
    if c >= 5 {
        seq![]
    } else {
        category_items(b, g, c, f) + group_items(b, g, c + 1, f)
    }
}

/// The selected entries of groups `g` up to `end` (exclusive), in order.
pub open spec fn groups_items<'l>(
    b: &'l PrimitiveBlock,
    g: int,
    end: int,
    f: PrimitiveType,
) -> Seq<Primitive<'l>>
    decreases end - g,
{
    if g >= end {
        seq![]
    } else {
        group_items(b, g, 0, f) + groups_items(b, g + 1, end, f)
    }
}

/// The running state of a dense run.
#[derive(Clone, Copy, Debug)]
pub struct DenseState {
    pub id: i64,
    pub lat: i64,
    pub lon: i64,
    pub kv_pos: usize,
}

/// A lazy iterator over the primitives of a block or of one of its groups.
#[derive(Clone, Copy, Debug)]
pub struct PrimitivesIter<'l> {
    pub block: &'l PrimitiveBlock,
    pub filter: PrimitiveType,
    pub group_pos: usize,
    pub group_end: usize,
    pub category: usize,
    pub prim_pos: usize,
    pub dense_state: DenseState,
}

impl<'l> PrimitivesIter<'l> {
    pub open spec fn wf(&self) -> bool {
        &&& self.group_end <= self.block.primitivegroup@.len()
        &&& self.category < 5
        &&& self.group_pos < self.group_end ==> {
            let grp = self.block.primitivegroup@[self.group_pos as int];
            &&& self.prim_pos <= category_len(grp, self.category as int)
            &&& self.category == 1 && grp.dense is Some ==> {
                let d = grp.dense->0;
                &&& self.dense_state.id == delta_sum(d.id@, self.prim_pos as nat)
                &&& self.dense_state.lat == delta_sum(d.lat@, self.prim_pos as nat)
                &&& self.dense_state.lon == delta_sum(d.lon@, self.prim_pos as nat)
                &&& self.dense_state.kv_pos == kv_cursor(d.keys_vals@, self.prim_pos as nat)
            }
        }
    }

    /// The primitives still to come, in order.
    pub open spec fn remaining(&self) -> Seq<Primitive<'l>> {
        if self.group_pos >= self.group_end {
            seq![]
        } else {
            let g = self.group_pos as int;
            let c = self.category as int;
            (if selects(self.filter, c) {
                category_items(self.block, g, c, self.filter).skip(self.prim_pos as int)
            } else {
                seq![]
            })
                + group_items(self.block, g, c + 1, self.filter)
                + groups_items(self.block, g + 1, self.group_end as int, self.filter)
        }
    }
}

impl<'l> NodeRef<'l> {
    /// The `index`-th node of the `nodes` of group `group`, its coordinates scaled.
    pub fn from_node(index: usize, group: usize, block: &'l PrimitiveBlock) -> (r: NodeRef<'l>)
        requires
            group < block.primitivegroup@.len(),
            index < block.primitivegroup@[group as int].nodes@.len(),
        ensures
            r == plain_node(block, group as int, index as int),
    {
        let n = &block.primitivegroup[group].nodes[index];
        NodeRef {
            id: n.id,
            nano_lat: block.lat_offset.wrapping_add(n.lat.wrapping_mul(block.granularity as i64)),
            nano_lon: block.lon_offset.wrapping_add(n.lon.wrapping_mul(block.granularity as i64)),
            index,
            group,
            data: NodeData::Node,
            block,
        }
    }

    /// A dense node from the running state of its run, its coordinates
    /// scaled, its tags in `keys_vals[kv_start..kv_end]`.
    pub fn from_dense_node(
        index: usize,
        group: usize,
        dense_state: &DenseState,
        kv_start: usize,
        kv_end: usize,
        block: &'l PrimitiveBlock,
    ) -> (r: NodeRef<'l>)
        ensures
            r.id == dense_state.id,
            r.nano_lat == scale(block.lat_offset, dense_state.lat, block.granularity),
            r.nano_lon == scale(block.lon_offset, dense_state.lon, block.granularity),
            r.index == index && r.group == group && r.block == block,
            r.data == (NodeData::DenseNode { kv_start, kv_end }),
    {
        NodeRef {
            id: dense_state.id,
            nano_lat: block.lat_offset.wrapping_add(
                dense_state.lat.wrapping_mul(block.granularity as i64),
            ),
            nano_lon: block.lon_offset.wrapping_add(
                dense_state.lon.wrapping_mul(block.granularity as i64),
            ),
            index,
            group,
            data: NodeData::DenseNode { kv_start, kv_end },
            block,
        }
    }
}

/// The category kinds as filter bits.
fn category_type(c: usize) -> (r: PrimitiveType)
    requires
        c < 5,
    ensures
        r.bits == category_bit(c as int),
{
    if c <= 1 {
        PrimitiveType::node()
    } else if c == 2 {
        PrimitiveType::way()
    } else if c == 3 {
        PrimitiveType::relation()
    } else {
        PrimitiveType::change_set()
    }
}

fn fresh_dense_state() -> (r: DenseState)
    ensures
        r.id == 0 && r.lat == 0 && r.lon == 0 && r.kv_pos == 0,
{
    DenseState { id: 0, lat: 0, lon: 0, kv_pos: 0 }
}

/// A group of a block.
#[derive(Clone, Copy, Debug)]
pub struct PrimitiveGroupRef<'l> {
    pub group: usize,
    pub block: &'l PrimitiveBlock,
}

impl<'l> PrimitivesIter<'l> {
    /// An iterator over groups `g` up to `end` with the given filter, not yet started.
    fn start(b: &'l PrimitiveBlock, g: usize, end: usize, f: PrimitiveType) -> (r: PrimitivesIter<'l>)
        requires
            g <= end <= b.primitivegroup@.len(),
        ensures
            r.wf(),
            r.block == b && r.filter == f && r.group_pos == g && r.group_end == end,
            r.category == 0 && r.prim_pos == 0,
            r.remaining() == groups_items(b, g as int, end as int, f),
    {
        let r = PrimitivesIter {
            block: b,
            filter: f,
            group_pos: g,
            group_end: end,
            category: 0,
            prim_pos: 0,
            dense_state: fresh_dense_state(),
        };
        proof {
            if g < end {
                let a = category_items(b, g as int, 0, f);
                assert(a.skip(0) =~= a);
                assert(r.remaining() =~= groups_items(b, g as int, end as int, f));
            }
        }
        r
    }

    /// The same iterator with another filter: its position is kept, and from
    /// there on only the given kinds are yielded.
    pub fn filter_types(self, types: PrimitiveType) -> (r: PrimitivesIter<'l>)
        requires
            self.wf(),
        ensures
            r.wf(),
            r.block == self.block && r.filter == types,
            r.group_pos == self.group_pos && r.group_end == self.group_end,
            r.category == self.category,
            r.prim_pos == self.prim_pos && r.dense_state == self.dense_state,
            self.category == 0 && self.prim_pos == 0 ==> r.remaining() == groups_items(
                self.block,
                self.group_pos as int,
                self.group_end as int,
                types,
            ),
    {
        let mut r = self;
        r.filter = types;
        proof {
            if self.category == 0 && self.prim_pos == 0 && self.group_pos < self.group_end {
                let a = category_items(self.block, self.group_pos as int, 0, types);
                assert(a.skip(0) =~= a);
                assert(r.remaining() =~= groups_items(
                    self.block,
                    self.group_pos as int,
                    self.group_end as int,
                    types,
                ));
            }
        }
        r
    }

    /// The next primitive: within each group all nodes, then the dense
    /// nodes, ways, relations and change sets, each kind only if selected.
    #[verifier::rlimit(40)]
    #[verifier::spinoff_prover]
    pub fn next(&mut self) -> (r: Option<Primitive<'l>>)
        requires
            old(self).wf(),
        ensures
            final(self).wf(),
            final(self).block == old(self).block,
            final(self).filter == old(self).filter,
            final(self).group_end == old(self).group_end,
            old(self).remaining().len() == 0 ==> r is None && final(self).remaining().len() == 0,
            old(self).remaining().len() > 0 ==> r == Some(old(self).remaining()[0])
                && final(self).remaining() == old(self).remaining().drop_first(),
            r is Some ==> primitive_wf(r->0),
            r is None ==> final(self).group_pos >= final(self).group_end,
            old(self).group_pos >= old(self).group_end ==> *final(self) == *old(self),
    {
        loop
            invariant
                self.wf(),
                self.block == old(self).block,
                self.filter == old(self).filter,
                self.group_end == old(self).group_end,
                self.remaining() == old(self).remaining(),
                old(self).group_pos >= old(self).group_end ==> *self == *old(self),
            decreases self.group_end - self.group_pos, 5 - self.category,
        {
            if self.group_pos >= self.group_end {
                return None;
            }
            let b = self.block;
            let g = self.group_pos;
            let c = self.category;
            let p = self.prim_pos;
            let grp = &b.primitivegroup[g];
            let ghost a = category_items(b, g as int, c as int, self.filter);
            let ghost rest = group_items(b, g as int, c + 1, self.filter) + groups_items(
                b,
                g + 1,
                self.group_end as int,
                self.filter,
            );
            let ghost before = self.remaining();
            let mut found: Option<Primitive<'l>> = None;
            if self.filter.contains(category_type(c)) {
                if c == 0 {
                    if p < grp.nodes.len() {
                        found = Some(Primitive::Node(NodeRef::from_node(p, g, b)));
                    }
                } else if c == 1 {
                    match &grp.dense {
                        Some(d) => {
                            if p < d.id.len() && p < d.lat.len() && p < d.lon.len() {
                                let id = self.dense_state.id.wrapping_add(d.id[p]);
                                let lat = self.dense_state.lat.wrapping_add(d.lat[p]);
                                let lon = self.dense_state.lon.wrapping_add(d.lon[p]);
                                proof {
                                    lemma_kv_cursor_bounds(d.keys_vals@, p as nat);
                                }
                                let (kv_end, kv_next) = scan_tags(
                                    d.keys_vals.as_slice(),
                                    self.dense_state.kv_pos,
                                );
                                let kv_start = self.dense_state.kv_pos;
                                proof {
                                    lemma_tag_end_bounds(d.keys_vals@, kv_start as int);
                                }
                                self.dense_state = DenseState { id, lat, lon, kv_pos: kv_next };
                                found = Some(
                                    Primitive::Node(
                                        NodeRef::from_dense_node(
                                            p,
                                            g,
                                            &self.dense_state,
                                            kv_start,
                                            kv_end,
                                            b,
                                        ),
                                    ),
                                );
                            }
                        },
                        None => {},
                    }
                } else if c == 2 {
                    if p < grp.ways.len() {
                        found = Some(Primitive::Way(PrimitiveRef { group: g, index: p, block: b, kind: PhantomData }));
                    }
                } else if c == 3 {
                    if p < grp.relations.len() {
                        found = Some(
                            Primitive::Relation(PrimitiveRef { group: g, index: p, block: b, kind: PhantomData }),
                        );
                    }
                } else {
                    if p < grp.changesets.len() {
                        found = Some(
                            Primitive::ChangeSet(PrimitiveRef { group: g, index: p, block: b, kind: PhantomData }),
                        );
                    }
                }
            }
            if found.is_some() {
                self.prim_pos = p + 1;
                proof {
                    assert(p < a.len());
                    assert(found == Some(item(b, g as int, c as int, p as int)));
                    assert(before =~= a.skip(p as int) + rest);
                    assert(a.skip(p + 1) =~= a.skip(p as int).drop_first());
                    assert(self.remaining() =~= a.skip(p + 1) + rest);
                    assert(self.remaining() =~= before.drop_first());
                }
                return found;
            }
            proof {
                if selects(self.filter, c as int) {
                    assert(a.skip(p as int) =~= seq![]);
                }
                assert(before =~= rest);
            }
            if c < 4 {
                self.category = c + 1;
            } else {
                self.category = 0;
                self.group_pos = g + 1;
            }
            self.prim_pos = 0;
            self.dense_state = fresh_dense_state();
            proof {
                if self.group_pos < self.group_end {
                    let a2 = category_items(b, self.group_pos as int, self.category as int, self.filter);
                    assert(a2.skip(0) =~= a2);
                    assert(self.remaining() =~= rest);
                } else {
                    assert(self.remaining() =~= rest);
                }
            }
        }
    }
}

impl PrimitiveBlock {
    /// All primitives of the block of the default kinds (nodes, ways, relations).
    pub fn primitives(&self) -> (r: PrimitivesIter<'_>)
        ensures
            r.wf(),
            r.block == self && r.filter.bits == 7,
            r.group_pos == 0 && r.group_end == self.primitivegroup@.len(),
            r.category == 0 && r.prim_pos == 0,
            r.remaining() == groups_items(self, 0, self.primitivegroup@.len() as int, r.filter),
    {
        PrimitivesIter::start(self, 0, self.primitivegroup.len(), PrimitiveType::default_types())
    }

    /// Group `i` of the block, if there is one.
    pub fn primitivegroup(&self, i: usize) -> (r: Option<PrimitiveGroupRef<'_>>)
        ensures
            i < self.primitivegroup@.len() ==> r == Some(PrimitiveGroupRef { group: i, block: self }),
            i >= self.primitivegroup@.len() ==> r is None,
    {
        if i < self.primitivegroup.len() {
            Some(PrimitiveGroupRef { group: i, block: self })
        } else {
            None
        }
    }
}

impl<'l> PrimitiveGroupRef<'l> {
    pub open spec fn wf(&self) -> bool {
        self.group < self.block.primitivegroup@.len()
    }

    /// The primitives of this group alone, of the default kinds.
    pub fn primitives(self) -> (r: PrimitivesIter<'l>)
        requires
            self.wf(),
        ensures
            r.wf(),
            r.block == self.block && r.filter.bits == 7,
            r.group_pos == self.group && r.group_end == self.group + 1,
            r.category == 0 && r.prim_pos == 0,
            r.remaining() == group_items(self.block, self.group as int, 0, r.filter),
    {
        let n = self.block.primitivegroup.len();
        assert(self.group < n);
        let r = PrimitivesIter::start(
            self.block,
            self.group,
            self.group + 1,
            PrimitiveType::default_types(),
        );
        proof {
            let g = self.group as int;
            assert(groups_items(self.block, g + 1, g + 1, r.filter) =~= seq![]);
            assert(r.remaining() =~= group_items(self.block, g, 0, r.filter));
        }
        r
    }
}

} // verus!
