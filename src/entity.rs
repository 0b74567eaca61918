//! What a primitive carries: ids, tags, metadata, way node lists.

use vstd::prelude::*;

use crate::delta::{delta_sum, delta_sum32, running_sum, running_sum32};
use crate::osmformat::{ChangeSet, DenseInfo, Info, Relation, Way};
use crate::primitives::{NodeData, NodeRef, PrimitiveRef};
use crate::tags::{dense_pairs, normal_pairs, Tags, TagsData};

verus! {

/// The metadata of the `i`-th node of a dense run: each field present when
/// its array reaches index `i`; timestamp, changeset, uid and user_sid are
/// running sums of their deltas.
pub open spec fn dense_info_at(di: DenseInfo, i: int) -> Info {
    Info {
        version: if i < di.version@.len() {
            Some(di.version@[i])
        } else {
            None
        },
        timestamp: if i < di.timestamp@.len() {
            Some(delta_sum(di.timestamp@, (i + 1) as nat))
        } else {
            None
        },
        changeset: if i < di.changeset@.len() {
            Some(delta_sum(di.changeset@, (i + 1) as nat))
        } else {
            None
        },
        uid: if i < di.uid@.len() {
            Some(delta_sum32(di.uid@, (i + 1) as nat))
        } else {
            None
        },
        user_sid: if i < di.user_sid@.len() {
            Some(delta_sum32(di.user_sid@, (i + 1) as nat) as u32)
        } else {
            None
        },
        visible: if i < di.visible@.len() {
            Some(di.visible@[i])
        } else {
            None
        },
    }
}

impl<'l> NodeRef<'l> {
    /// The index pairs of the node's tags.
    pub open spec fn tag_pairs(&self) -> Seq<(int, int)> {
        let grp = self.block.primitivegroup@[self.group as int];
        match self.data {
            NodeData::Node => {
                let n = grp.nodes@[self.index as int];
                normal_pairs(n.keys@, n.vals@, 0)
            },
            NodeData::DenseNode { kv_start, kv_end } => dense_pairs(
                grp.dense->0.keys_vals@,
                kv_start as int,
                kv_end as int,
            ),
        }
    }

    /// The node's metadata.
    pub open spec fn spec_info(&self) -> Info {
        let grp = self.block.primitivegroup@[self.group as int];
        match self.data {
            NodeData::Node => grp.nodes@[self.index as int].info,
            NodeData::DenseNode { .. } => dense_info_at(
                grp.dense->0.denseinfo,
                self.index as int,
            ),
        }
    }

    pub fn id(&self) -> (r: i64)
        ensures
            r == self.id,
    {
        self.id
    }

    /// The node's tags, read through the block's string table.
    pub fn tags(&self) -> (r: Tags<'l>)
        requires
            self.wf(),
        ensures
            r.wf(),
            r.s == &self.block.stringtable,
            r.pairs() == self.tag_pairs(),
    {
        let grp = &self.block.primitivegroup[self.group];
        match self.data {
            NodeData::Node => {
                let n = &grp.nodes[self.index];
                let (keys, vals) = (n.keys.as_slice(), n.vals.as_slice());
                Tags {
                    kv: TagsData::Normal { keys, vals, pos: 0 },
                    s: &self.block.stringtable,
                }
            },
            NodeData::DenseNode { kv_start, kv_end } => {
                let d = grp.dense.as_ref().unwrap();
                Tags {
                    kv: TagsData::Dense { kv: d.keys_vals.as_slice(), pos: kv_start, end: kv_end },
                    s: &self.block.stringtable,
                }
            },
        }
    }

    /// The node's metadata: its own for a plain node, the entries at its
    /// index of the parallel arrays for a dense one.
    pub fn info(&self) -> (r: Info)
        requires
            self.wf(),
        ensures
            r == self.spec_info(),
    {
        let grp = &self.block.primitivegroup[self.group];
        match self.data {
            NodeData::Node => grp.nodes[self.index].info,
            NodeData::DenseNode { .. } => {
                let di = &grp.dense.as_ref().unwrap().denseinfo;
                let i = self.index;
                Info {
                    version: if i < di.version.len() {
                        Some(di.version[i])
                    } else {
                        None
                    },
                    timestamp: if i < di.timestamp.len() {
                        Some(running_sum(&di.timestamp, i + 1))
                    } else {
                        None
                    },
                    changeset: if i < di.changeset.len() {
                        Some(running_sum(&di.changeset, i + 1))
                    } else {
                        None
                    },
                    uid: if i < di.uid.len() {
                        Some(running_sum32(&di.uid, i + 1))
                    } else {
                        None
                    },
                    user_sid: if i < di.user_sid.len() {
                        Some(running_sum32(&di.user_sid, i + 1) as u32)
                    } else {
                        None
                    },
                    visible: if i < di.visible.len() {
                        Some(di.visible[i])
                    } else {
                        None
                    },
                }
            },
        }
    }
}

impl<'l> PrimitiveRef<'l, Way> {
    pub open spec fn way(&self) -> Way {
        self.block.primitivegroup@[self.group as int].ways@[self.index as int]
    }

    pub fn value(&self) -> (r: &'l Way)
        requires
            self.wf(),
        ensures
            *r == self.way(),
    {
        &self.block.primitivegroup[self.group].ways[self.index]
    }

    pub fn id(&self) -> (r: i64)
        requires
            self.wf(),
        ensures
            r == self.way().id,
    {
        self.value().id
    }

    pub fn tags(&self) -> (r: Tags<'l>)
        requires
            self.wf(),
        ensures
            r.wf(),
            r.s == &self.block.stringtable,
            r.pairs() == normal_pairs(self.way().keys@, self.way().vals@, 0),
    {
        let w = self.value();
        Tags {
            kv: TagsData::Normal { keys: w.keys.as_slice(), vals: w.vals.as_slice(), pos: 0 },
            s: &self.block.stringtable,
        }
    }

    /// The absolute ids of the way's nodes: the running sums of `refs`.
    pub fn refs(&self) -> (r: Vec<i64>)
        requires
            self.wf(),
        ensures
            r@.len() == self.way().refs@.len(),
            forall|i: int|
                0 <= i < r@.len() ==> r@[i] == delta_sum(self.way().refs@, (i + 1) as nat),
    {
        let d = &self.value().refs;
        let mut out: Vec<i64> = Vec::new();
        let mut acc: i64 = 0;
        let mut i: usize = 0;
        while i < d.len()
            invariant
                i <= d@.len(),
                *d == self.way().refs,
                out@.len() == i,
                acc == delta_sum(d@, i as nat),
                forall|j: int| 0 <= j < i ==> out@[j] == delta_sum(d@, (j + 1) as nat),
            decreases d@.len() - i,
        {
            acc = acc.wrapping_add(d[i]);
            out.push(acc);
            i = i + 1;
        }
        out
    }

    pub fn info(&self) -> (r: Info)
        requires
            self.wf(),
        ensures
            r == self.way().info,
    {
        self.value().info
    }
}

impl<'l> PrimitiveRef<'l, Relation> {
    pub open spec fn relation(&self) -> Relation {
        self.block.primitivegroup@[self.group as int].relations@[self.index as int]
    }

    pub fn value(&self) -> (r: &'l Relation)
        requires
            self.wf(),
        ensures
            *r == self.relation(),
    {
        &self.block.primitivegroup[self.group].relations[self.index]
    }

    pub fn id(&self) -> (r: i64)
        requires
            self.wf(),
        ensures
            r == self.relation().id,
    {
        self.value().id
    }

    pub fn tags(&self) -> (r: Tags<'l>)
        requires
            self.wf(),
        ensures
            r.wf(),
            r.s == &self.block.stringtable,
            r.pairs() == normal_pairs(self.relation().keys@, self.relation().vals@, 0),
    {
        let rel = self.value();
        Tags {
            kv: TagsData::Normal { keys: rel.keys.as_slice(), vals: rel.vals.as_slice(), pos: 0 },
            s: &self.block.stringtable,
        }
    }

    pub fn info(&self) -> (r: Info)
        requires
            self.wf(),
        ensures
            r == self.relation().info,
    {
        self.value().info
    }
}

impl<'l> PrimitiveRef<'l, ChangeSet> {
    pub fn id(&self) -> (r: i64)
        requires
            self.wf(),
        ensures
            r == self.block.primitivegroup@[self.group as int].changesets@[self.index as int].id,
    {
        self.block.primitivegroup[self.group].changesets[self.index].id
    }
}

} // verus!
